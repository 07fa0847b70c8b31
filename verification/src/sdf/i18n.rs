//! Character classes used by text layout.
use vstd::prelude::*;
use crate::sdf::bidi::Char16;

verus! {

/// Vertical tab.
pub const BACKSLACK_V: Char16 = 0x000B;
/// Form feed.
pub const BACKSLACK_F: Char16 = 0x000C;

/// The code units that text layout treats as white space.
pub open spec fn is_whitespace_spec(chr: Char16) -> bool {
    chr == 0x20 || chr == 0x09 || chr == 0x0A || chr == BACKSLACK_V || chr == BACKSLACK_F
        || chr == 0x0D
}

/// Space, tab, line feed, vertical tab, form feed and carriage return are white space.
pub fn isWhitespace(chr: Char16) -> (r: bool)
    ensures
        r == is_whitespace_spec(chr),
{
    chr == 0x20 || chr == 0x09 || chr == 0x0A || chr == BACKSLACK_V || chr == BACKSLACK_F
        || chr == 0x0D
}

/// The white space of text layout is exactly space (0x20), tab (0x09), line feed (0x0A),
/// vertical tab (0x0B), form feed (0x0C) and carriage return (0x0D): in particular no printable
/// character other than space, and no code unit above space, is white space.
pub proof fn law_whitespace_class(chr: Char16)
    ensures
        is_whitespace_spec(chr) <==> (chr == 0x20 || (0x09 <= chr && chr <= 0x0D)),
        0x21 <= chr ==> !is_whitespace_spec(chr),
        chr < 0x09 ==> !is_whitespace_spec(chr),
{
}

} // verus!
