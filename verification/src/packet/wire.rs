//! Byte-level helpers shared by both packet directions.

use vstd::prelude::*;
use vstd::bytes::spec_u128_from_le_bytes;
use vstd::bytes::spec_u128_to_le_bytes;
use vstd::bytes::lemma_auto_spec_u128_to_from_le_bytes;

verus! {

/// The 16 bytes of an identifier on the wire: its value in big-endian order
/// (the byte order of a UUID).
pub open spec fn id_bytes(id: u128) -> Seq<u8> {
    spec_u128_to_le_bytes(id).reverse()
}

/// The identifier whose big-endian bytes are `b`.
pub open spec fn id_from_bytes(b: Seq<u8>) -> u128 {
    spec_u128_from_le_bytes(b.reverse())
}

/// Encoding an identifier and decoding the bytes gives the identifier back.
pub proof fn lemma_id_bytes_roundtrip(id: u128)
    ensures
        id_bytes(id).len() == 16,
        id_from_bytes(id_bytes(id)) == id,
{
    lemma_auto_spec_u128_to_from_le_bytes();
    assert(id_bytes(id).reverse() =~= spec_u128_to_le_bytes(id));
}

/// Decoding 16 bytes and encoding the identifier gives the bytes back.
pub proof fn lemma_id_from_bytes_roundtrip(b: Seq<u8>)
    requires
        b.len() == 16,
    ensures
        id_bytes(id_from_bytes(b)) == b,
{
    lemma_auto_spec_u128_to_from_le_bytes();
    assert(b.reverse().len() == 16);
    assert(spec_u128_to_le_bytes(spec_u128_from_le_bytes(b.reverse())) == b.reverse());
    assert(id_bytes(id_from_bytes(b)) =~= b.reverse().reverse());
    assert(b.reverse().reverse() =~= b);
}

/// `u128::to_be_bytes`: the value's bytes, most significant first.
#[verifier::external_body]
fn u128_to_be_bytes(x: u128) -> (r: [u8; 16])
    ensures
        r@ == id_bytes(x),
{
    x.to_be_bytes()
}

/// `u128::from_be_bytes`: the value whose bytes, most significant first, are `b`.
#[verifier::external_body]
fn u128_from_be_bytes(b: [u8; 16]) -> (r: u128)
    ensures
        r == id_from_bytes(b@),
{
    u128::from_be_bytes(b)
}

/// Appends the wire form of `id` to `out`.
pub fn push_id(out: &mut Vec<u8>, id: u128)
    ensures
        final(out)@ == old(out)@ + id_bytes(id),
{
    let b = u128_to_be_bytes(id);
    proof {
        lemma_id_bytes_roundtrip(id);
    }
    let mut i: usize = 0;
    while i < 16
        invariant
            0 <= i <= 16,
            b@.len() == 16,
            b@ == id_bytes(id),
            out@ == old(out)@ + b@.take(i as int),
        decreases 16 - i,
    {
        out.push(b[i]);
        i = i + 1;
        assert(b@.take(i as int) =~= b@.take(i - 1).push(b@[i - 1]));
    }
    assert(b@.take(16) =~= b@);
}

/// Reads the identifier whose wire form starts at `start` in `data`.
pub fn read_id(data: &[u8], start: usize) -> (r: u128)
    requires
        start + 16 <= data@.len(),
    ensures
        r == id_from_bytes(data@.subrange(start as int, start + 16)),
{
    let b: [u8; 16] = [
        data[start], data[start + 1], data[start + 2], data[start + 3],
        data[start + 4], data[start + 5], data[start + 6], data[start + 7],
        data[start + 8], data[start + 9], data[start + 10], data[start + 11],
        data[start + 12], data[start + 13], data[start + 14], data[start + 15],
    ];
    assert(b@ =~= data@.subrange(start as int, start + 16));
    u128_from_be_bytes(b)
}

/// Appends every byte of `src` to `out`.
pub fn push_all(out: &mut Vec<u8>, src: &[u8])
    ensures
        final(out)@ == old(out)@ + src@,
{
    let mut i: usize = 0;
    while i < src.len()
        invariant
            0 <= i <= src@.len(),
            out@ == old(out)@ + src@.take(i as int),
        decreases src@.len() - i,
    {
        out.push(src[i]);
        i = i + 1;
        assert(src@.take(i as int) =~= src@.take(i - 1).push(src@[i - 1]));
    }
    assert(src@.take(src@.len() as int) =~= src@);
}

/// The bytes of `data` from `start` to its end, as a new vector.
pub fn copy_from(data: &[u8], start: usize) -> (r: Vec<u8>)
    requires
        start <= data@.len(),
    ensures
        r@ == data@.subrange(start as int, data@.len() as int),
{
    let mut r: Vec<u8> = Vec::new();
    let mut i: usize = start;
    while i < data.len()
        invariant
            start <= i <= data@.len(),
            r@ == data@.subrange(start as int, i as int),
        decreases data@.len() - i,
    {
        r.push(data[i]);
        i = i + 1;
        assert(r@ =~= data@.subrange(start as int, i as int));
    }
    r
}

} // verus!
