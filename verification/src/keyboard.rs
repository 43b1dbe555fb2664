//! Keystroke planning: the shifted keycode table and the HID report
//! sequences that type bytes and strings.
//!
//! Only the meaningful fields of the fixed 8-byte HID keyboard report are
//! modelled — the modifier byte and the single keycode slot the firmware
//! ever uses; the transport that serializes and delivers reports lives
//! outside.

use vstd::prelude::*;

use crate::text::keycode_spec;

verus! {

/// A planned HID keyboard report: a modifier byte and one keycode slot.
#[derive(Clone, Copy, PartialEq, Eq, Structural, Debug)]
pub struct KeyReport {
    pub modifier: u8,
    pub keycode: u8,
}

/// The US-layout table for the shift-aware typer: the keycode for an ASCII
/// byte and whether the shift key is down for it. Unknown bytes fall back
/// to a shifted question mark.
pub open spec fn keycode_shift_spec(chr: u8) -> (u8, bool) {
    if 97 <= chr && chr <= 122 {
        // 'a'..='z'
        ((chr - 97 + 4) as u8, false)
    } else if 65 <= chr && chr <= 90 {
        // 'A'..='Z'
        ((chr - 65 + 4) as u8, true)
    } else if chr == 33 {
        (30, true)
    } else if chr == 10 {
        (40, false)
    } else if chr == 32 {
        (44, false)
    } else if chr == 45 {
        (45, false)
    } else if chr == 58 {
        (51, true)
    } else if chr == 39 {
        (52, false)
    } else if chr == 44 {
        (54, false)
    } else if chr == 46 {
        (55, false)
    } else if chr == 62 {
        (55, true)
    } else if chr == 47 {
        (56, false)
    } else if chr == 63 {
        (56, true)
    } else {
        (56, true)
    }
}

/// Map ASCII chars to keyboard (US layout) keycodes; the second element is
/// true when the shift key has to be pressed.
pub fn char_to_keycode(chr: u8) -> (r: (u8, bool))
    ensures
        r == keycode_shift_spec(chr),
{
    if chr >= 97 && chr <= 122 {
        (chr - 97 + 4, false)
    } else if chr >= 65 && chr <= 90 {
        (chr - 65 + 4, true)
    } else if chr == 33 {
        (30, true)
    } else if chr == 10 {
        (40, false)
    } else if chr == 32 {
        (44, false)
    } else if chr == 45 {
        (45, false)
    } else if chr == 58 {
        (51, true)
    } else if chr == 39 {
        (52, false)
    } else if chr == 44 {
        (54, false)
    } else if chr == 46 {
        (55, false)
    } else if chr == 62 {
        (55, true)
    } else if chr == 47 {
        (56, false)
    } else if chr == 63 {
        (56, true)
    } else {
        // If unknown, default to question mark
        (56, true)
    }
}

/// The all-keys-up report that releases the keyboard.
pub fn release_report() -> (r: KeyReport)
    ensures
        r == (KeyReport { modifier: 0, keycode: 0 }),
{
    KeyReport { modifier: 0, keycode: 0 }
}

/// The report sequence that types one ASCII byte on the shift-aware typer:
/// a bare held-shift report first when the key is shifted (the transport
/// inserts a settling delay after it), then the key report, which keeps the
/// shift modifier held.
pub fn reports_for_ascii(chr: u8) -> (r: (Option<KeyReport>, KeyReport))
    ensures
        r.0 is Some <==> keycode_shift_spec(chr).1,
        r.0 matches Some(s) ==> s == (KeyReport { modifier: 2, keycode: 0 }),
        r.1 == (KeyReport { modifier: 2, keycode: keycode_shift_spec(chr).0 }),
{
    let (keycode, shifted) = char_to_keycode(chr);
    let lead = if shifted {
        Some(KeyReport { modifier: 2, keycode: 0 })
    } else {
        None
    };
    (lead, KeyReport { modifier: 2, keycode })
}

/// The down/up report pair that types one keycode on the plain typer: the
/// key pressed alone, then everything released.
pub fn key_report_pair(keycode: u8) -> (r: (KeyReport, KeyReport))
    ensures
        r.0 == (KeyReport { modifier: 0, keycode }),
        r.1 == (KeyReport { modifier: 0, keycode: 0 }),
{
    (KeyReport { modifier: 0, keycode }, KeyReport { modifier: 0, keycode: 0 })
}

/// One step of typing a whole string: the reports for the byte at the
/// cursor, and the cursor advanced by one.
pub fn type_step(text: &[u8], ix: usize) -> (r: ((Option<KeyReport>, KeyReport), usize))
    requires
        ix < text@.len(),
    ensures
        r.0.0 is Some <==> keycode_shift_spec(text@[ix as int]).1,
        r.0.0 matches Some(s) ==> s == (KeyReport { modifier: 2, keycode: 0 }),
        r.0.1 == (KeyReport { modifier: 2, keycode: keycode_shift_spec(text@[ix as int]).0 }),
        r.1 == ix + 1,
{
    let chr = text[ix];
    (reports_for_ascii(chr), ix + 1)
}

/// One scheduling step of the looping keystroke task: while stopped it
/// emits the null keycode and stands still; while typing it emits the
/// keycode of the byte at the cursor and advances, wrapping at the end of
/// the canned text.
pub fn typing_step(on: bool, text: &[u8], n_written: usize) -> (r: (u8, usize))
    requires
        text@.len() > 0,
        n_written < text@.len(),
    ensures
        !on ==> r.0 == 0 && r.1 == n_written,
        on ==> r.0 == keycode_spec(text@[n_written as int]) && r.1 == (n_written + 1) % (
        text@.len() as int),
        r.1 < text@.len(),
{
    if !on {
        (0, n_written)
    } else {
        let chr = text[n_written];
        let k = crate::text::char_to_keycode(chr);
        let next = (n_written + 1) % text.len();
        (k, next)
    }
}

} // verus!
