use vstd::prelude::*;
use crate::specs::{KEYS_COUNT, SCREEN_H, SCREEN_SIZE, SCREEN_W};

verus! {

/// The keypad button that a key of a keyboard stands for. A key is named
/// by its key code, which for a key that types a character is the code
/// of that character, unshifted. The four rows `1234`, `qwer`, `asdf`,
/// `zxcv` of the keyboard stand for the four rows `123C`, `456D`, `789E`,
/// `A0BF` of the keypad.
pub open spec fn button_of(key: i32) -> Option<usize> {
    if key == '1' as i32 {
        Some(0x1)
    } else if key == '2' as i32 {
        Some(0x2)
    } else if key == '3' as i32 {
        Some(0x3)
    } else if key == '4' as i32 {
        Some(0xC)
    } else if key == 'q' as i32 {
        Some(0x4)
    } else if key == 'w' as i32 {
        Some(0x5)
    } else if key == 'e' as i32 {
        Some(0x6)
    } else if key == 'r' as i32 {
        Some(0xD)
    } else if key == 'a' as i32 {
        Some(0x7)
    } else if key == 's' as i32 {
        Some(0x8)
    } else if key == 'd' as i32 {
        Some(0x9)
    } else if key == 'f' as i32 {
        Some(0xE)
    } else if key == 'z' as i32 {
        Some(0xA)
    } else if key == 'x' as i32 {
        Some(0x0)
    } else if key == 'c' as i32 {
        Some(0xB)
    } else if key == 'v' as i32 {
        Some(0xF)
    } else {
        None
    }
}

/// The keypad button that the key with code `key` stands for, if it
/// stands for one.
pub fn key2btn(key: i32) -> (button: Option<usize>)
    ensures
        button == button_of(key),
        button matches Some(b) ==> b < KEYS_COUNT,
{
    match key {
        0x31 => Some(0x1),
        0x32 => Some(0x2),
        0x33 => Some(0x3),
        0x34 => Some(0xC),
        0x71 => Some(0x4),
        0x77 => Some(0x5),
        0x65 => Some(0x6),
        0x72 => Some(0xD),
        0x61 => Some(0x7),
        0x73 => Some(0x8),
        0x64 => Some(0x9),
        0x66 => Some(0xE),
        0x7A => Some(0xA),
        0x78 => Some(0x0),
        0x63 => Some(0xB),
        0x76 => Some(0xF),
        _ => None,
    }
}

/// The key that stands for button `button` of the keypad.
pub open spec fn key_of(button: usize) -> i32 {
    if button == 0x0 {
        'x' as i32
    } else if button == 0x1 {
        '1' as i32
    } else if button == 0x2 {
        '2' as i32
    } else if button == 0x3 {
        '3' as i32
    } else if button == 0x4 {
        'q' as i32
    } else if button == 0x5 {
        'w' as i32
    } else if button == 0x6 {
        'e' as i32
    } else if button == 0x7 {
        'a' as i32
    } else if button == 0x8 {
        's' as i32
    } else if button == 0x9 {
        'd' as i32
    } else if button == 0xA {
        'z' as i32
    } else if button == 0xB {
        'c' as i32
    } else if button == 0xC {
        '4' as i32
    } else if button == 0xD {
        'r' as i32
    } else if button == 0xE {
        'f' as i32
    } else {
        'v' as i32
    }
}

/// Every button of the keypad has its key.
pub proof fn law_button_has_key(button: usize)
    requires
        button < KEYS_COUNT,
    ensures
        button_of(key_of(button)) == Some(button),
{
}

/// No two keys stand for the same button: a key that stands for a button
/// is the key of that button.
pub proof fn law_key_has_button(key: i32)
    ensures
        button_of(key) matches Some(button) ==> button < KEYS_COUNT && key_of(button) == key,
{
}

/// A rectangle of a window: its top left corner, its width and its height.
#[derive(Clone, Copy, Debug, PartialEq, Eq)]
pub struct PixelRect {
    pub x: i32,
    pub y: i32,
    pub w: u32,
    pub h: u32,
}

/// The largest scale at which a window can be addressed.
pub const MAX_SCALE: u32 = 0x1FF_FFFF;

/// Whether a window that shows each pixel of the display as a square of
/// `scale` by `scale` can be addressed: whether its width fits the
/// coordinates of a `PixelRect`.
pub open spec fn scale_fits(scale: u32) -> bool {
    SCREEN_W * scale <= i32::MAX
}

/// The square that shows pixel `index` of the display in such a window.
pub open spec fn rect_of(index: int, scale: u32) -> PixelRect {
    PixelRect {
        x: ((index % (SCREEN_W as int)) * scale) as i32,
        y: ((index / (SCREEN_W as int)) * scale) as i32,
        w: scale,
        h: scale,
    }
}

/// The width and height of a window that shows each pixel of the display
/// as a square of `scale` by `scale`, if such a window can be addressed.
pub fn window_size(scale: u32) -> (size: Option<(u32, u32)>)
    ensures
        match size {
            Some((w, h)) => scale_fits(scale) && w == SCREEN_W * scale && h == SCREEN_H * scale,
            None => !scale_fits(scale),
        },
{
    if scale > MAX_SCALE {
        None
    } else {
        Some((64 * scale, 32 * scale))
    }
}

/// The square that shows pixel `index` of the display in a window of scale
/// `scale`; none where the display has no such pixel or the window cannot
/// be addressed. The square lies within the window.
pub fn pixel_rect(index: usize, scale: u32) -> (rect: Option<PixelRect>)
    ensures
        rect == if index < SCREEN_SIZE && scale_fits(scale) {
            Some(rect_of(index as int, scale))
        } else {
            None
        },
        rect matches Some(r) ==> {
            &&& 0 <= r.x
            &&& 0 <= r.y
            &&& r.x + r.w <= SCREEN_W * scale
            &&& r.y + r.h <= SCREEN_H * scale
            &&& r.x == (index % SCREEN_W) * scale
            &&& r.y == (index / SCREEN_W) * scale
        },
{
    if index >= SCREEN_SIZE || scale > MAX_SCALE {
        return None;
    }
    let x = (index % SCREEN_W) as u32;
    let y = (index / SCREEN_W) as u32;
    assert(x * scale <= 63 * scale && y * scale <= 31 * scale) by (nonlinear_arith)
        requires
            x <= 63,
            y <= 31,
    ;
    Some(PixelRect { x: (x * scale) as i32, y: (y * scale) as i32, w: scale, h: scale })
}

} // verus!
