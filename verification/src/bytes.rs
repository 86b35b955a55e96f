//! Byte strings.

use vstd::prelude::*;

verus! {

/// What an optional byte string holds.
pub open spec fn optional(data: Option<Vec<u8>>) -> Option<Seq<u8>> {
    match data {
        Some(d) => Some(d@),
        None => None,
    }
}

/// The bytes of `first` with those of `second` behind them.
pub fn joined(first: &[u8], second: &[u8]) -> (r: Vec<u8>)
    ensures
        r@ == first@ + second@,
{
    let mut r: Vec<u8> = Vec::new();
    r.extend_from_slice(first);
    r.extend_from_slice(second);
    assert(r@ =~= first@ + second@);
    r
}

/// Copies a byte string.
pub fn copy(data: &[u8]) -> (r: Vec<u8>)
    ensures
        r@ == data@,
{
    let mut r: Vec<u8> = Vec::new();
    r.extend_from_slice(data);
    assert(r@ =~= data@);
    r
}

/// Copies an optional byte string.
pub fn copy_optional(data: &Option<Vec<u8>>) -> (r: Option<Vec<u8>>)
    ensures
        optional(r) == optional(*data),
{
    match data {
        Some(d) => Some(copy(d.as_slice())),
        None => None,
    }
}

/// Whether two byte strings are the same. For strings of one length the time taken does
/// not depend on where they differ.
pub fn equal(a: &[u8], b: &[u8]) -> (r: bool)
    ensures
        r == (a@ == b@),
{
    if a.len() != b.len() {
        return false;
    }
    let mut difference: u8 = 0;
    let mut i: usize = 0;
    while i < a.len()
        invariant
            i <= a.len(),
            a.len() == b.len(),
            difference == 0 <==> (forall|j: int| 0 <= j < i ==> a@[j] == b@[j]),
        decreases a.len() - i,
    {
        let x: u8 = a[i];
        let y: u8 = b[i];
        assert((difference | (x ^ y)) == 0 <==> difference == 0 && x == y) by (bit_vector);
        difference = difference | (x ^ y);
        i = i + 1;
    }
    proof {
        if difference == 0 {
            assert(a@ =~= b@);
        }
    }
    difference == 0
}

} // verus!
