//! Byte-level predicates on command-line tokens.
//!
//! A token is an arbitrary byte string; it does not have to be valid UTF-8.

use vstd::prelude::*;
use vstd::slice::slice_to_vec;
use vstd::string::StringSliceAdditionalSpecFns;

verus! {

/// ASCII code of `-`.
pub const DASH: u8 = 45;

/// ASCII code of `A`.
pub const UPPER_A: u8 = 65;

/// ASCII code of `Z`.
pub const UPPER_Z: u8 = 90;

/// ASCII code of `a`.
pub const LOWER_A: u8 = 97;

/// ASCII code of `z`.
pub const LOWER_Z: u8 = 122;

/// Whether `b` is an ASCII letter.
pub open spec fn alpha(b: u8) -> bool {
    LOWER_A <= b <= LOWER_Z || UPPER_A <= b <= UPPER_Z
}

/// Whether `b` is an ASCII letter.
pub fn is_alpha(b: u8) -> (r: bool)
    ensures
        r == alpha(b),
{
    LOWER_A <= b && b <= LOWER_Z || UPPER_A <= b && b <= UPPER_Z
}

/// The token spelled by `name`: the bytes of its UTF-8 encoding, which for
/// the ASCII names used here are the codes of its characters.
pub open spec fn literal(name: &str) -> Seq<u8> {
    name.spec_bytes()
}

/// Whether two byte strings are equal.
pub fn bytes_eq(a: &[u8], b: &[u8]) -> (r: bool)
    ensures
        r == (a@ == b@),
{
    if a.len() != b.len() {
        return false;
    }
    let mut i: usize = 0;
    while i < a.len()
        invariant
            a@.len() == b@.len(),
            0 <= i <= a@.len(),
            a@.take(i as int) == b@.take(i as int),
        decreases a.len() - i,
    {
        if a[i] != b[i] {
            return false;
        }
        assert(a@.take(i + 1) == a@.take(i as int).push(a@[i as int]));
        assert(b@.take(i + 1) == b@.take(i as int).push(b@[i as int]));
        i = i + 1;
    }
    assert(a@.take(i as int) == a@);
    assert(b@.take(i as int) == b@);
    true
}

/// Whether `token` is spelled exactly `name`.
pub fn token_is(token: &Vec<u8>, name: &str) -> (r: bool)
    ensures
        r == (token@ == literal(name)),
{
    bytes_eq(token.as_slice(), name.as_bytes())
}

/// The token spelled by `name`.
pub fn token_from(name: &str) -> (token: Vec<u8>)
    ensures
        token@ == literal(name),
{
    slice_to_vec(name.as_bytes())
}

} // verus!
