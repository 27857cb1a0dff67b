//! Key symbol values of the host keyboard protocol, and the rule that turns
//! one Unicode character into the key symbol that reproduces it.
//!
//! A key symbol is a 32-bit code: printable Latin-1 characters are their own
//! symbol, a handful of control characters map to dedicated function-key
//! symbols, and any other character is carried in the Unicode plane obtained
//! by setting bit 24.

use vstd::prelude::*;

verus! {

pub const XK_BACKSPACE: u32 = 0xff08;

pub const XK_TAB: u32 = 0xff09;

pub const XK_RETURN: u32 = 0xff0d;

pub const XK_ESCAPE: u32 = 0xff1b;

pub const XK_HOME: u32 = 0xff50;

pub const XK_LEFT: u32 = 0xff51;

pub const XK_UP: u32 = 0xff52;

pub const XK_RIGHT: u32 = 0xff53;

pub const XK_DOWN: u32 = 0xff54;

pub const XK_PAGE_UP: u32 = 0xff55;

pub const XK_PAGE_DOWN: u32 = 0xff56;

pub const XK_END: u32 = 0xff57;

pub const XK_PRINT: u32 = 0xff61;

pub const XK_INSERT: u32 = 0xff63;

pub const XK_F1: u32 = 0xffbe;

pub const XK_F2: u32 = 0xffbf;

pub const XK_F3: u32 = 0xffc0;

pub const XK_F4: u32 = 0xffc1;

pub const XK_F5: u32 = 0xffc2;

pub const XK_F6: u32 = 0xffc3;

pub const XK_F7: u32 = 0xffc4;

pub const XK_F8: u32 = 0xffc5;

pub const XK_F9: u32 = 0xffc6;

pub const XK_F10: u32 = 0xffc7;

pub const XK_F11: u32 = 0xffc8;

pub const XK_F12: u32 = 0xffc9;

pub const XK_SHIFT_L: u32 = 0xffe1;

pub const XK_CONTROL_L: u32 = 0xffe3;

pub const XK_ALT_L: u32 = 0xffe9;

pub const XK_SUPER_L: u32 = 0xffeb;

pub const XK_DELETE: u32 = 0xffff;

/// The character sits in the printable Latin-1 range.
pub open spec fn spec_is_latin1(code: char) -> bool {
    (0x20 <= code as u32 <= 0x7e) || (0xa0 <= code as u32 <= 0xff)
}

/// Whether a character sits in the printable Latin-1 range, whose characters
/// are their own key symbol.
pub fn is_latin1(code: char) -> (r: bool)
    ensures
        r == spec_is_latin1(code),
{
    let c = code as u32;
    (0x20 <= c && c <= 0x7e) || (0xa0 <= c && c <= 0xff)
}

/// The key symbol that reproduces one character.
pub open spec fn keysym_of(c: char) -> u32 {
    if spec_is_latin1(c) {
        c as u32
    } else if c == '\t' {
        XK_TAB
    } else if c == '\n' || c == '\r' {
        XK_RETURN
    } else {
        (c as u32) | 0x01000000
    }
}

/// Turns one character into the key symbol that reproduces it: printable
/// Latin-1 characters are their own symbol, tab and the line endings map to
/// their function keys, and everything else is carried in the Unicode key
/// symbol plane. The result is never the empty symbol and never the sentinel
/// of an unassigned dynamic slot.
pub fn char_to_keysym(c: char) -> (r: u32)
    ensures
        r == keysym_of(c),
        0 < r < 0xffff_ffffu32,
{
    if is_latin1(c) {
        return c as u32;
    }
    if c == '\t' {
        return XK_TAB;
    }
    if c == '\n' || c == '\r' {
        return XK_RETURN;
    }
    let u = c as u32;
    let r = u | 0x01000000;
    proof {
        assert(u <= 0x10ffff) by {
            assert(c as u32 <= 0x10ffff);
        }
        assert(u <= 0x10ffff ==> (u | 0x01000000) >= 0x01000000 && (u | 0x01000000) <= 0x0110ffff)
            by (bit_vector);
    }
    r
}

} // verus!
