//! byte-level helpers shared by the lexer, the parsers and the emitter

use vstd::prelude::*;
use vstd::string::StringSliceAdditionalSpecFns;

verus! {

/// the bytes of a string literal, as they appear in a source file
pub open spec fn lit(s: &str) -> Seq<u8> {
    s.spec_bytes()
}

/// compares two byte strings
pub fn bytes_eq(a: &[u8], b: &[u8]) -> (r: bool)
    ensures
        r == (a@ == b@),
{
    if a.len() != b.len() {
        return false;
    }
    let mut i: usize = 0;
    while i < a.len()
        invariant
            a@.len() == b@.len(),
            i <= a@.len(),
            forall|j: int| 0 <= j < i ==> a@[j] == b@[j],
        decreases a@.len() - i,
    {
        if a[i] != b[i] {
            return false;
        }
        i += 1;
    }
    assert(a@ =~= b@);
    true
}

/// compares a byte string with the bytes of a string literal
pub fn bytes_eq_str(a: &[u8], s: &str) -> (r: bool)
    ensures
        r == (a@ == lit(s)),
{
    bytes_eq(a, s.as_bytes())
}

/// copies a slice of bytes into a new vector
pub fn bytes_to_vec(a: &[u8]) -> (r: Vec<u8>)
    ensures
        r@ == a@,
{
    let mut r: Vec<u8> = Vec::new();
    let mut i: usize = 0;
    while i < a.len()
        invariant
            i <= a@.len(),
            r@ == a@.subrange(0, i as int),
        decreases a@.len() - i,
    {
        r.push(a[i]);
        i += 1;
    }
    assert(r@ =~= a@);
    r
}

/// appends a slice of bytes to a vector
pub fn extend_bytes(v: &mut Vec<u8>, a: &[u8])
    ensures
        final(v)@ == old(v)@ + a@,
{
    let mut i: usize = 0;
    let ghost start = v@;
    while i < a.len()
        invariant
            i <= a@.len(),
            v@ == start + a@.subrange(0, i as int),
        decreases a@.len() - i,
    {
        v.push(a[i]);
        i += 1;
    }
    assert(a@.subrange(0, a@.len() as int) =~= a@);
}

} // verus!
