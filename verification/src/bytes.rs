//! Byte-string utilities: equality and big-endian integer encodings, the
//! building blocks of the protocol's commitment key layout.

use vstd::prelude::*;

verus! {

/// Compares two byte strings for equality, element by element.
pub fn bytes_eq(a: &Vec<u8>, b: &Vec<u8>) -> (r: bool)
    ensures
        r == (a@ == b@),
{
    if a.len() != b.len() {
        assert(a@ != b@);
        return false;
    }
    let n = a.len();
    let mut i: usize = 0;
    while i < n
        invariant
            n == a.len() == b.len(),
            i <= n,
            forall|j: int| 0 <= j < i ==> a@[j] == b@[j],
        decreases n - i,
    {
        if a[i] != b[i] {
            return false;
        }
        i = i + 1;
    }
    assert(a@ =~= b@);
    true
}

/// An equal byte string, element by element.
pub fn copy_bytes(src: &Vec<u8>) -> (r: Vec<u8>)
    ensures
        r@ == src@,
{
    let mut out: Vec<u8> = Vec::new();
    push_bytes(&mut out, src);
    out
}

/// The UTF-8 bytes of a string, as port identifiers travel on the wire.
pub fn string_bytes(s: &String) -> (r: Vec<u8>)
    ensures
        r@ == vstd::utf8::encode_utf8(s@),
{
    vstd::slice::slice_to_vec(s.as_str().as_bytes())
}

/// The big-endian encoding of a 32-bit integer.
pub open spec fn spec_u32_be(x: u32) -> Seq<u8> {
    seq![
        (x / 0x1000000) as u8,
        ((x / 0x10000) % 0x100) as u8,
        ((x / 0x100) % 0x100) as u8,
        (x % 0x100) as u8,
    ]
}

/// Appends the big-endian encoding of a 32-bit integer.
pub fn push_u32_be(out: &mut Vec<u8>, x: u32)
    ensures
        final(out)@ == old(out)@ + spec_u32_be(x),
{
    out.push((x >> 24) as u8);
    out.push((x >> 16) as u8);
    out.push((x >> 8) as u8);
    out.push(x as u8);
    proof {
        assert((x >> 24) as u8 == (x / 0x1000000) as u8) by (bit_vector);
        assert((x >> 16) as u8 == ((x / 0x10000) % 0x100) as u8) by (bit_vector);
        assert((x >> 8) as u8 == ((x / 0x100) % 0x100) as u8) by (bit_vector);
        assert(x as u8 == (x % 0x100) as u8) by (bit_vector);
        assert(out@ =~= old(out)@ + spec_u32_be(x));
    }
}

/// The big-endian encoding of a 64-bit integer.
pub open spec fn spec_u64_be(x: u64) -> Seq<u8> {
    seq![
        (x / 0x100000000000000) as u8,
        ((x / 0x1000000000000) % 0x100) as u8,
        ((x / 0x10000000000) % 0x100) as u8,
        ((x / 0x100000000) % 0x100) as u8,
        ((x / 0x1000000) % 0x100) as u8,
        ((x / 0x10000) % 0x100) as u8,
        ((x / 0x100) % 0x100) as u8,
        (x % 0x100) as u8,
    ]
}

/// Appends the big-endian encoding of a 64-bit integer.
pub fn push_u64_be(out: &mut Vec<u8>, x: u64)
    ensures
        final(out)@ == old(out)@ + spec_u64_be(x),
{
    out.push((x >> 56) as u8);
    out.push((x >> 48) as u8);
    out.push((x >> 40) as u8);
    out.push((x >> 32) as u8);
    out.push((x >> 24) as u8);
    out.push((x >> 16) as u8);
    out.push((x >> 8) as u8);
    out.push(x as u8);
    proof {
        assert((x >> 56) as u8 == (x / 0x100000000000000) as u8) by (bit_vector);
        assert((x >> 48) as u8 == ((x / 0x1000000000000) % 0x100) as u8) by (bit_vector);
        assert((x >> 40) as u8 == ((x / 0x10000000000) % 0x100) as u8) by (bit_vector);
        assert((x >> 32) as u8 == ((x / 0x100000000) % 0x100) as u8) by (bit_vector);
        assert((x >> 24) as u8 == ((x / 0x1000000) % 0x100) as u8) by (bit_vector);
        assert((x >> 16) as u8 == ((x / 0x10000) % 0x100) as u8) by (bit_vector);
        assert((x >> 8) as u8 == ((x / 0x100) % 0x100) as u8) by (bit_vector);
        assert(x as u8 == (x % 0x100) as u8) by (bit_vector);
        assert(out@ =~= old(out)@ + spec_u64_be(x));
    }
}

/// Appends every byte of `src` to `out`.
pub fn push_bytes(out: &mut Vec<u8>, src: &Vec<u8>)
    ensures
        final(out)@ == old(out)@ + src@,
{
    let n = src.len();
    let mut i: usize = 0;
    while i < n
        invariant
            n == src.len(),
            i <= n,
            out@ == old(out)@ + src@.subrange(0, i as int),
        decreases n - i,
    {
        out.push(src[i]);
        proof {
            assert(out@ =~= old(out)@ + src@.subrange(0, i + 1 as int));
        }
        i = i + 1;
    }
    proof {
        assert(src@.subrange(0, n as int) =~= src@);
    }
}

} // verus!
