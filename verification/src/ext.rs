//! The library's trusted boundary: the declarations through which verified
//! code reaches the clock of the chrono crate and the few std functions that
//! vstd gives no specification.

use vstd::prelude::*;

verus! {

/// Relies on `char::from_u32`: it returns the character with the given
/// scalar value, and `None` exactly on surrogates and on values above
/// `char::MAX`.
pub assume_specification[ char::from_u32 ](v: u32) -> (r: Option<char>)
    ensures
        crate::codec::is_scalar_value(v as int) ==> r == Some(v as char),
        !crate::codec::is_scalar_value(v as int) ==> r is None,
;

/// Relies on `String::push`: it appends the one character.
#[verifier::external_body]
pub(crate) fn push_char(s: &mut String, c: char)
    ensures
        final(s)@ == old(s)@ + seq![c],
{
    s.push(c);
}

/// Relies on chrono's `Local::now` and its `%Y-%m-%d %H:%M:%S` formatting:
/// the local date and time as a non-empty text such as `2026-01-31 12:00:00`.
/// Nothing more is assumed of the value: it depends on the clock.
#[verifier::external_body]
pub fn now_string() -> (r: String)
    ensures
        r@.len() > 0,
{
    chrono::Local::now().format("%Y-%m-%d %H:%M:%S").to_string()
}

} // verus!
