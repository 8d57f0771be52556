use vstd::prelude::*;

verus! {

/// Number of bytes of memory.
pub const RAM_SIZE: usize = 4096;

/// Width of the display, in pixels.
pub const SCREEN_W: usize = 64;

/// Height of the display, in pixels.
pub const SCREEN_H: usize = 32;

/// Number of pixels of the display.
pub const SCREEN_SIZE: usize = 2048;

/// Number of general-purpose registers.
pub const REGISTERS_COUNT: usize = 16;

/// Number of return addresses the call stack can hold.
pub const STACK_SIZE: usize = 16;

/// Number of keys of the keypad.
pub const KEYS_COUNT: usize = 16;

/// Address at which a program image is loaded and starts to run.
pub const START_ADDR: u16 = 0x200;

/// Number of bytes of the font table.
pub const FONTSET_SIZE: usize = 80;

/// Number of bytes of one glyph of the font table.
pub const GLYPH_SIZE: usize = 5;

/// The glyphs of the sixteen hexadecimal digits, five rows each.
pub const FONTSET: [u8; FONTSET_SIZE] = [
    0xF0, 0x90, 0x90, 0x90, 0xF0,
    0x20, 0x60, 0x20, 0x20, 0x70,
    0xF0, 0x10, 0xF0, 0x80, 0xF0,
    0xF0, 0x10, 0xF0, 0x10, 0xF0,
    0x90, 0x90, 0xF0, 0x10, 0x10,
    0xF0, 0x80, 0xF0, 0x10, 0xF0,
    0xF0, 0x80, 0xF0, 0x90, 0xF0,
    0xF0, 0x10, 0x20, 0x40, 0x40,
    0xF0, 0x90, 0xF0, 0x90, 0xF0,
    0xF0, 0x90, 0xF0, 0x10, 0xF0,
    0xF0, 0x90, 0xF0, 0x90, 0x90,
    0xE0, 0x90, 0xE0, 0x90, 0xE0,
    0xF0, 0x80, 0x80, 0x80, 0xF0,
    0xE0, 0x90, 0x90, 0x90, 0xE0,
    0xF0, 0x80, 0xF0, 0x80, 0xF0,
    0xF0, 0x80, 0xF0, 0x80, 0x80,
];

/// The geometry of the machine, gathered in one value for a front end to read.
pub struct Specs {
    pub ram_size: usize,
    pub screen_w: usize,
    pub screen_h: usize,
    pub registers_count: usize,
    pub stack_size: usize,
    pub keys_count: usize,
    pub start_addr: u16,
    pub fontset_size: usize,
    pub fontset: [u8; FONTSET_SIZE],
}

impl Specs {
    /// Whether `self` describes the machine that this library implements.
    pub open spec fn is_standard(&self) -> bool {
        &&& self.ram_size == RAM_SIZE
        &&& self.screen_w == SCREEN_W
        &&& self.screen_h == SCREEN_H
        &&& self.registers_count == REGISTERS_COUNT
        &&& self.stack_size == STACK_SIZE
        &&& self.keys_count == KEYS_COUNT
        &&& self.start_addr == START_ADDR
        &&& self.fontset_size == FONTSET_SIZE
        &&& self.fontset@ == FONTSET@
    }

    /// The geometry of the machine that this library implements.
    pub fn new() -> (specs: Specs)
        ensures
            specs.is_standard(),
    {
        Specs {
            ram_size: RAM_SIZE,
            screen_w: SCREEN_W,
            screen_h: SCREEN_H,
            registers_count: REGISTERS_COUNT,
            stack_size: STACK_SIZE,
            keys_count: KEYS_COUNT,
            start_addr: START_ADDR,
            fontset_size: FONTSET_SIZE,
            fontset: FONTSET,
        }
    }
}

/// The constants agree with one another: the display is a grid of
/// `SCREEN_W` by `SCREEN_H` pixels, the font table holds one glyph for each
/// hexadecimal digit and lies below the address at which programs start.
pub proof fn law_geometry()
    ensures
        SCREEN_SIZE == SCREEN_W * SCREEN_H,
        FONTSET_SIZE == 16 * GLYPH_SIZE,
        FONTSET_SIZE <= START_ADDR < RAM_SIZE,
        FONTSET@.len() == FONTSET_SIZE,
{
}

} // verus!
