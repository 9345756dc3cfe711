//! Small trusted bridges to std's string and character primitives that vstd
//! leaves unspecified, shared by the colorizer and the frame assembler.

use vstd::prelude::*;

verus! {

/// Relies on String::push: appends exactly one character at the end.
#[verifier::external_body]
pub(crate) fn push_char(s: &mut String, c: char)
    ensures
        final(s)@ == old(s)@.push(c),
{
    s.push(c)
}

/// Relies on char::from_u32: yields the character with the given code point,
/// or None exactly when the value is a surrogate or above char::MAX.
#[verifier::external_body]
pub(crate) fn char_from_u32(v: u32) -> (r: Option<char>)
    ensures
        (r is None) <==> (0xD800 <= v < 0xE000 || v > 0x10FFFF),
        r is Some ==> r->Some_0 as u32 == v,
{
    char::from_u32(v)
}

} // verus!
