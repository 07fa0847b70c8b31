//! Strings of UTF-16 code units of the `widestring` crate (`U16String`), known by their units.
use vstd::prelude::*;

verus! {

/// `widestring::U16String`, a string of 16-bit code units with no encoding enforced.
#[verifier::external_type_specification]
#[verifier::external_body]
pub struct ExU16String(widestring::U16String);

/// The code units that a `U16String` holds, in order.
pub uninterp spec fn u16_units(s: widestring::U16String) -> Seq<u16>;

/// `U16String::new`: an empty string.
#[verifier::external_body]
pub(crate) fn u16string_new() -> (r: widestring::U16String)
    ensures
        u16_units(r) == Seq::<u16>::empty(),
{
    widestring::U16String::new()
}

/// `U16String::from_vec`: the string of the given code units.
#[verifier::external_body]
pub(crate) fn u16string_from_vec(units: Vec<u16>) -> (r: widestring::U16String)
    ensures
        u16_units(r) == units@,
{
    widestring::U16String::from_vec(units)
}

/// `U16String::as_vec`: the code units of the string.
#[verifier::external_body]
pub(crate) fn u16string_as_vec(s: &widestring::U16String) -> (r: &Vec<u16>)
    ensures
        r@ == u16_units(*s),
{
    s.as_vec()
}

/// `U16String::push_slice`: appends the given code units.
#[verifier::external_body]
pub(crate) fn u16string_push_slice(s: &mut widestring::U16String, units: &[u16])
    ensures
        u16_units(*final(s)) == u16_units(*old(s)) + units@,
{
    s.push_slice(units)
}

} // verus!
