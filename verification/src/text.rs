//! The plain keycode table: ASCII bytes to US-layout HID keycodes for the
//! unshifted typer, which lowercases everything and fakes the few
//! punctuation marks it needs.

use vstd::prelude::*;

verus! {

/// The table itself: lowercase letters map onto the contiguous keycode
/// block starting at 4, a handful of punctuation marks are mapped (some to
/// a stand-in key), anything else to the null keycode.
pub open spec fn keycode_spec(chr: u8) -> u8 {
    if 97 <= chr && chr <= 122 {
        (chr - 97 + 4) as u8
    } else if chr == 44 {
        54
    } else if chr == 46 {
        55
    } else if chr == 32 {
        44
    } else if chr == 10 {
        40
    } else if chr == 39 {
        52
    } else if chr == 33 {
        51
    } else if chr == 58 {
        51
    } else {
        0
    }
}

/// Convert an ASCII char code to a keyboard keycode.
pub fn char_to_keycode(chr: u8) -> (r: u8)
    ensures
        r == keycode_spec(chr),
{
    if chr >= 97 && chr <= 122 {
        chr - 97 + 4
    } else if chr == 44 {
        54
    } else if chr == 46 {
        55
    } else if chr == 32 {
        44
    } else if chr == 10 {
        40
    } else if chr == 39 {
        52
    } else if chr == 33 {
        // stand-in exclamation mark
        51
    } else if chr == 58 {
        // stand-in colon
        51
    } else {
        0
    }
}

} // verus!
