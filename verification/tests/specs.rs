use chip8_core::specs::{
    Specs, FONTSET, FONTSET_SIZE, GLYPH_SIZE, KEYS_COUNT, RAM_SIZE, REGISTERS_COUNT, SCREEN_H,
    SCREEN_SIZE, SCREEN_W, STACK_SIZE, START_ADDR,
};

#[test]
fn specs_describe_the_machine() {
    let specs = Specs::new();
    assert_eq!(specs.ram_size, 4096);
    assert_eq!(specs.screen_w, 64);
    assert_eq!(specs.screen_h, 32);
    assert_eq!(specs.registers_count, 16);
    assert_eq!(specs.stack_size, 16);
    assert_eq!(specs.keys_count, 16);
    assert_eq!(specs.start_addr, 0x200);
    assert_eq!(specs.fontset_size, 80);
    assert_eq!(specs.fontset, FONTSET);
    assert_eq!(specs.fontset.len(), 80);
    assert_eq!(&specs.fontset[5..10], &[0x20, 0x60, 0x20, 0x20, 0x70][..]);
}

#[test]
fn constants_agree() {
    assert_eq!(SCREEN_SIZE, SCREEN_W * SCREEN_H);
    assert_eq!(FONTSET_SIZE, 16 * GLYPH_SIZE);
    assert_eq!(FONTSET.len(), FONTSET_SIZE);
    assert!(FONTSET_SIZE <= START_ADDR as usize);
    assert!((START_ADDR as usize) < RAM_SIZE);
    assert_eq!((REGISTERS_COUNT, STACK_SIZE, KEYS_COUNT), (16, 16, 16));
}

#[test]
fn every_glyph_is_four_pixels_wide() {
    assert!(FONTSET.iter().all(|row| row & 0x0F == 0));
    assert!(FONTSET.chunks(GLYPH_SIZE).all(|glyph| glyph.iter().any(|row| *row != 0)));
}
