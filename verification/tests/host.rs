use chip8_core::host::{key2btn, pixel_rect, window_size, PixelRect, MAX_SCALE};

#[test]
fn keyboard_rows_stand_for_keypad_rows() {
    let rows: [(&str, [usize; 4]); 4] = [
        ("1234", [0x1, 0x2, 0x3, 0xC]),
        ("qwer", [0x4, 0x5, 0x6, 0xD]),
        ("asdf", [0x7, 0x8, 0x9, 0xE]),
        ("zxcv", [0xA, 0x0, 0xB, 0xF]),
    ];
    for (keys, buttons) in rows {
        for (key, button) in keys.chars().zip(buttons) {
            assert_eq!(key2btn(key as i32), Some(button));
        }
    }
}

#[test]
fn other_keys_stand_for_no_button() {
    assert_eq!(key2btn(0), None);
    assert_eq!(key2btn('5' as i32), None);
    assert_eq!(key2btn('0' as i32), None);
    assert_eq!(key2btn('Q' as i32), None);
    assert_eq!(key2btn('b' as i32), None);
    assert_eq!(key2btn(27), None);
    assert_eq!(key2btn(-1), None);
    assert_eq!(key2btn(i32::MAX), None);
    assert_eq!(key2btn(0x4000_0000 | 58), None);
}

#[test]
fn every_button_has_one_key() {
    let mut keys_of = [0usize; 16];
    for key in 0..=0x7F {
        if let Some(button) = key2btn(key) {
            assert!(button < 16);
            keys_of[button] += 1;
        }
    }
    assert_eq!(keys_of, [1usize; 16]);
}

#[test]
fn window_size_scales_the_display() {
    assert_eq!(window_size(15), Some((960, 480)));
    assert_eq!(window_size(1), Some((64, 32)));
    assert_eq!(window_size(0), Some((0, 0)));
}

#[test]
fn window_size_at_the_largest_scale() {
    assert_eq!(MAX_SCALE, 33_554_431);
    assert_eq!(window_size(MAX_SCALE), Some((2_147_483_584, 1_073_741_792)));
    assert_eq!(window_size(MAX_SCALE + 1), None);
    assert_eq!(window_size(u32::MAX), None);
}

#[test]
fn pixel_rect_of_a_pixel() {
    assert_eq!(pixel_rect(0, 15), Some(PixelRect { x: 0, y: 0, w: 15, h: 15 }));
    assert_eq!(pixel_rect(63, 15), Some(PixelRect { x: 945, y: 0, w: 15, h: 15 }));
    assert_eq!(pixel_rect(64, 15), Some(PixelRect { x: 0, y: 15, w: 15, h: 15 }));
    assert_eq!(pixel_rect(12 + 64 * 20, 10), Some(PixelRect { x: 120, y: 200, w: 10, h: 10 }));
    assert_eq!(pixel_rect(2047, 15), Some(PixelRect { x: 945, y: 465, w: 15, h: 15 }));
}

#[test]
fn pixel_rect_off_the_display_or_the_window() {
    assert_eq!(pixel_rect(2048, 15), None);
    assert_eq!(pixel_rect(usize::MAX, 1), None);
    assert_eq!(pixel_rect(0, MAX_SCALE + 1), None);
    assert_eq!(
        pixel_rect(2047, MAX_SCALE),
        Some(PixelRect { x: 2_113_929_153, y: 1_040_187_361, w: MAX_SCALE, h: MAX_SCALE })
    );
}

#[test]
fn pixel_rects_tile_the_window() {
    let scale = 7u32;
    let (w, h) = window_size(scale).unwrap();
    let mut covered = vec![0u8; (w * h) as usize];
    for index in 0..2048 {
        let r = pixel_rect(index, scale).unwrap();
        for y in r.y as u32..r.y as u32 + r.h {
            for x in r.x as u32..r.x as u32 + r.w {
                covered[(x + w * y) as usize] += 1;
            }
        }
    }
    assert!(covered.iter().all(|c| *c == 1));
}
