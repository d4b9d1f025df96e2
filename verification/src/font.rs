//! Metrics of the embedded 8x16 bitmap font.
//!
//! Every glyph occupies a cell `CHAR_W` pixels wide and `CHAR_H` pixels tall,
//! and text advances by one cell per character.

use vstd::prelude::*;

verus! {

/// Width of one glyph cell in pixels.
pub const CHAR_W: u32 = 8;

/// Height of one glyph cell in pixels.
pub const CHAR_H: u32 = 16;

/// Width in pixels of `n` glyph cells, saturated at `u32::MAX`.
pub open spec fn width_of_chars(n: nat) -> u32 {
    if n * 8 > u32::MAX {
        u32::MAX
    } else {
        (n * 8) as u32
    }
}

/// Width in pixels of `text`: `CHAR_W` per character, saturated at `u32::MAX`.
pub fn text_width(text: &str) -> (w: u32)
    ensures
        w == width_of_chars(text@.len()),
{
    let n = text.unicode_len();
    if n > 0x1FFF_FFFF {
        u32::MAX
    } else {
        (n as u32) * CHAR_W
    }
}

} // verus!
