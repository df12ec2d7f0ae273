//! Rendering bytes for display.
use vstd::prelude::*;

verus! {

/// Whether a byte is a printable ASCII character, space through tilde.
pub open spec fn is_printable(b: u8) -> bool {
    0x20 <= b <= 0x7e
}

/// The character that shows a byte: the byte itself when it is printable
/// ASCII, else `'.'`.
pub fn format_ascii(b: u8) -> (r: char)
    ensures
        is_printable(b) ==> r as u32 == b as u32,
        !is_printable(b) ==> r == '.',
{
    if 0x20 <= b && b <= 0x7e {
        b as char
    } else {
        '.'
    }
}

} // verus!
