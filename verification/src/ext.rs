//! Contracts taken on trust for the two standard-library functions this
//! crate uses beyond what vstd specifies.

use vstd::prelude::*;

verus! {

/// Relies on `String::push`: the new value is the old text with exactly the
/// given character appended.
pub assume_specification[ String::push ](s: &mut String, ch: char)
    ensures
        final(s)@ == old(s)@.push(ch),
;

/// Relies on `char::from_u32`: returns `Some` exactly on Unicode scalar
/// values (every code point outside the surrogate range `0xD800..=0xDFFF`
/// and at most `0x10FFFF`), and the character returned carries exactly the
/// given code point.
pub assume_specification[ char::from_u32 ](v: u32) -> (r: Option<char>)
    ensures
        r is Some <==> (v < 0xD800 || (0xE000 <= v && v <= 0x10FFFF)),
        r matches Some(c) ==> c as u32 == v,
;

} // verus!
