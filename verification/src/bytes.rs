//! Small verified helpers over byte vectors used throughout the crate.

use vstd::prelude::*;

verus! {

/// The eight bytes of `x` in little-endian order.
pub open spec fn u64_le(x: u64) -> Seq<u8> {
    seq![
        (x & 0xff) as u8,
        ((x >> 8) & 0xff) as u8,
        ((x >> 16) & 0xff) as u8,
        ((x >> 24) & 0xff) as u8,
        ((x >> 32) & 0xff) as u8,
        ((x >> 40) & 0xff) as u8,
        ((x >> 48) & 0xff) as u8,
        ((x >> 56) & 0xff) as u8,
    ]
}

/// A vector of `len` copies of `value`.
pub fn filled(len: usize, value: u8) -> (r: Vec<u8>)
    ensures
        r@.len() == len,
        forall|i: int| 0 <= i < len ==> r@[i] == value,
{
    let mut r: Vec<u8> = Vec::new();
    let mut i: usize = 0;
    while i < len
        invariant
            i <= len,
            r@.len() == i,
            forall|k: int| 0 <= k < i ==> r@[k] == value,
        decreases len - i,
    {
        r.push(value);
        i = i + 1;
    }
    r
}

/// An owned copy of `src`.
pub fn copy_bytes(src: &Vec<u8>) -> (r: Vec<u8>)
    ensures
        r@ == src@,
{
    let mut r: Vec<u8> = Vec::new();
    let mut i: usize = 0;
    while i < src.len()
        invariant
            i <= src@.len(),
            r@ == src@.subrange(0, i as int),
        decreases src@.len() - i,
    {
        r.push(src[i]);
        assert(r@ =~= src@.subrange(0, i + 1));
        i = i + 1;
    }
    assert(r@ =~= src@);
    r
}

/// Whether `a` and `b` hold the same bytes.
pub fn bytes_eq(a: &Vec<u8>, b: &Vec<u8>) -> (r: bool)
    ensures
        r == (a@ == b@),
{
    if a.len() != b.len() {
        return false;
    }
    let mut i: usize = 0;
    while i < a.len()
        invariant
            a@.len() == b@.len(),
            i <= a@.len(),
            forall|k: int| 0 <= k < i ==> a@[k] == b@[k],
        decreases a@.len() - i,
    {
        if a[i] != b[i] {
            return false;
        }
        i = i + 1;
    }
    assert(a@ =~= b@);
    true
}

/// Append every byte of `data` to `buf`.
pub fn push_bytes(buf: &mut Vec<u8>, data: &Vec<u8>)
    ensures
        final(buf)@ == old(buf)@ + data@,
{
    let mut i: usize = 0;
    while i < data.len()
        invariant
            i <= data@.len(),
            buf@ == old(buf)@ + data@.subrange(0, i as int),
        decreases data@.len() - i,
    {
        buf.push(data[i]);
        assert(buf@ =~= old(buf)@ + data@.subrange(0, i + 1));
        i = i + 1;
    }
    assert(buf@ =~= old(buf)@ + data@);
}

/// Append the little-endian encoding of `x` to `buf`.
pub fn push_u64_le(buf: &mut Vec<u8>, x: u64)
    ensures
        final(buf)@ == old(buf)@ + u64_le(x),
{
    buf.push((x & 0xff) as u8);
    buf.push(((x >> 8) & 0xff) as u8);
    buf.push(((x >> 16) & 0xff) as u8);
    buf.push(((x >> 24) & 0xff) as u8);
    buf.push(((x >> 32) & 0xff) as u8);
    buf.push(((x >> 40) & 0xff) as u8);
    buf.push(((x >> 48) & 0xff) as u8);
    buf.push(((x >> 56) & 0xff) as u8);
    assert(buf@ =~= old(buf)@ + u64_le(x));
}

} // verus!
