//! Big-endian byte-level primitives shared by the packet codec.
//!
//! Every integer on the wire is big-endian. The spec functions `uNN_bytes`
//! give the byte image of an integer, `beNN_at` read an integer out of a
//! byte sequence at a given offset, and the lemmas tie the two together.

use vstd::prelude::*;

verus! {

/// The two big-endian bytes of a 16-bit integer, most significant first.
pub open spec fn u16_bytes(x: u16) -> Seq<u8> {
    seq![(x >> 8) as u8, x as u8]
}

/// The four big-endian bytes of a 32-bit integer, most significant first.
pub open spec fn u32_bytes(x: u32) -> Seq<u8> {
    seq![(x >> 24) as u8, (x >> 16) as u8, (x >> 8) as u8, x as u8]
}

/// The eight big-endian bytes of a 64-bit integer, most significant first.
pub open spec fn u64_bytes(x: u64) -> Seq<u8> {
    seq![
        (x >> 56) as u8,
        (x >> 48) as u8,
        (x >> 40) as u8,
        (x >> 32) as u8,
        (x >> 24) as u8,
        (x >> 16) as u8,
        (x >> 8) as u8,
        x as u8,
    ]
}

/// The 16-bit integer whose big-endian image are the two bytes at offset `i`.
pub open spec fn be16_at(b: Seq<u8>, i: int) -> u16
    recommends
        0 <= i,
        i + 2 <= b.len(),
{
    ((b[i] as u16) << 8) | (b[i + 1] as u16)
}

/// The 32-bit integer whose big-endian image are the four bytes at offset `i`.
pub open spec fn be32_at(b: Seq<u8>, i: int) -> u32
    recommends
        0 <= i,
        i + 4 <= b.len(),
{
    ((b[i] as u32) << 24) | ((b[i + 1] as u32) << 16) | ((b[i + 2] as u32) << 8) | (b[i
        + 3] as u32)
}

/// The 64-bit integer whose big-endian image are the eight bytes at offset `i`.
pub open spec fn be64_at(b: Seq<u8>, i: int) -> u64
    recommends
        0 <= i,
        i + 8 <= b.len(),
{
    ((b[i] as u64) << 56) | ((b[i + 1] as u64) << 48) | ((b[i + 2] as u64) << 40) | ((b[i
        + 3] as u64) << 32) | ((b[i + 4] as u64) << 24) | ((b[i + 5] as u64) << 16) | ((b[i
        + 6] as u64) << 8) | (b[i + 7] as u64)
}

/// Reading two bytes that are the image of `x` yields `x` back.
pub proof fn lemma_be16_of_bytes(b: Seq<u8>, i: int, x: u16)
    requires
        0 <= i,
        i + 2 <= b.len(),
        b[i] == u16_bytes(x)[0],
        b[i + 1] == u16_bytes(x)[1],
    ensures
        be16_at(b, i) == x,
{
    assert(((((x >> 8) as u8) as u16) << 8) | ((x as u8) as u16) == x) by (bit_vector);
}

/// Reading four bytes that are the image of `x` yields `x` back.
pub proof fn lemma_be32_of_bytes(b: Seq<u8>, i: int, x: u32)
    requires
        0 <= i,
        i + 4 <= b.len(),
        b[i] == u32_bytes(x)[0],
        b[i + 1] == u32_bytes(x)[1],
        b[i + 2] == u32_bytes(x)[2],
        b[i + 3] == u32_bytes(x)[3],
    ensures
        be32_at(b, i) == x,
{
    assert(((((x >> 24) as u8) as u32) << 24) | ((((x >> 16) as u8) as u32) << 16) | ((((x
        >> 8) as u8) as u32) << 8) | ((x as u8) as u32) == x) by (bit_vector);
}

/// Reading eight bytes that are the image of `x` yields `x` back.
pub proof fn lemma_be64_of_bytes(b: Seq<u8>, i: int, x: u64)
    requires
        0 <= i,
        i + 8 <= b.len(),
        b[i] == u64_bytes(x)[0],
        b[i + 1] == u64_bytes(x)[1],
        b[i + 2] == u64_bytes(x)[2],
        b[i + 3] == u64_bytes(x)[3],
        b[i + 4] == u64_bytes(x)[4],
        b[i + 5] == u64_bytes(x)[5],
        b[i + 6] == u64_bytes(x)[6],
        b[i + 7] == u64_bytes(x)[7],
    ensures
        be64_at(b, i) == x,
{
    assert(((((x >> 56) as u8) as u64) << 56) | ((((x >> 48) as u8) as u64) << 48) | ((((x
        >> 40) as u8) as u64) << 40) | ((((x >> 32) as u8) as u64) << 32) | ((((x
        >> 24) as u8) as u64) << 24) | ((((x >> 16) as u8) as u64) << 16) | ((((x
        >> 8) as u8) as u64) << 8) | ((x as u8) as u64) == x) by (bit_vector);
}

/// A 64-bit read is the pair of 32-bit reads of its two halves.
pub proof fn lemma_be64_split(b: Seq<u8>, i: int)
    requires
        0 <= i,
        i + 8 <= b.len(),
    ensures
        be64_at(b, i) == ((be32_at(b, i) as u64) << 32) | (be32_at(b, i + 4) as u64),
{
    let x0 = b[i];
    let x1 = b[i + 1];
    let x2 = b[i + 2];
    let x3 = b[i + 3];
    let x4 = b[i + 4];
    let x5 = b[i + 5];
    let x6 = b[i + 6];
    let x7 = b[i + 7];
    assert(((x0 as u64) << 56) | ((x1 as u64) << 48) | ((x2 as u64) << 40) | ((x3 as u64) << 32) | (
    (x4 as u64) << 24) | ((x5 as u64) << 16) | ((x6 as u64) << 8) | (x7 as u64) == (((((x0
        as u32) << 24) | ((x1 as u32) << 16) | ((x2 as u32) << 8) | (x3 as u32)) as u64) << 32) | ((
    ((x4 as u32) << 24) | ((x5 as u32) << 16) | ((x6 as u32) << 8) | (x7 as u32)) as u64))
        by (bit_vector);
}

/// Only one upper half fits the connect magic constant: a 64-bit value
/// whose upper 32 bits are an action code (0, 1 or 2) is never the magic.
pub proof fn lemma_not_magic(b: Seq<u8>, magic: u64)
    requires
        0 <= 16 <= b.len(),
        magic == 0x41727101980,
        be32_at(b, 0) == 0 || be32_at(b, 0) == 1 || be32_at(b, 0) == 2,
    ensures
        be64_at(b, 0) != magic,
{
    lemma_be64_split(b, 0);
    let hi = be32_at(b, 0);
    let lo = be32_at(b, 4);
    assert((((hi as u64) << 32) | (lo as u64) == 0x41727101980u64) ==> hi == 0x417u32)
        by (bit_vector);
}

/// Reading the first four bytes of a 64-bit image yields its upper half.
pub proof fn lemma_be32_of_u64_hi(b: Seq<u8>, i: int, x: u64)
    requires
        0 <= i,
        i + 4 <= b.len(),
        b[i] == u64_bytes(x)[0],
        b[i + 1] == u64_bytes(x)[1],
        b[i + 2] == u64_bytes(x)[2],
        b[i + 3] == u64_bytes(x)[3],
    ensures
        be32_at(b, i) as u64 == x >> 32,
{
    assert((((((x >> 56) as u8) as u32) << 24) | ((((x >> 48) as u8) as u32) << 16) | ((((x
        >> 40) as u8) as u32) << 8) | (((x >> 32) as u8) as u32)) as u64 == x >> 32)
        by (bit_vector);
}

/// Reads the big-endian 16-bit integer at offset `i`.
pub fn read_u16_at(b: &Vec<u8>, i: usize) -> (r: u16)
    requires
        i + 2 <= b@.len(),
    ensures
        r == be16_at(b@, i as int),
{
    let _n: usize = b.len();
    (((b[i] as u16) << 8u16) | (b[i + 1] as u16)) as u16
}

/// Reads the big-endian 32-bit integer at offset `i`.
pub fn read_u32_at(b: &Vec<u8>, i: usize) -> (r: u32)
    requires
        i + 4 <= b@.len(),
    ensures
        r == be32_at(b@, i as int),
{
    let _n: usize = b.len();
    ((b[i] as u32) << 24u32) | ((b[i + 1] as u32) << 16u32) | ((b[i + 2] as u32) << 8u32) | (b[i
        + 3] as u32)
}

/// Reads the big-endian 64-bit integer at offset `i`.
pub fn read_u64_at(b: &Vec<u8>, i: usize) -> (r: u64)
    requires
        i + 8 <= b@.len(),
    ensures
        r == be64_at(b@, i as int),
{
    let _n: usize = b.len();
    ((b[i] as u64) << 56u64) | ((b[i + 1] as u64) << 48u64) | ((b[i + 2] as u64) << 40u64) | ((b[i
        + 3] as u64) << 32u64) | ((b[i + 4] as u64) << 24u64) | ((b[i + 5] as u64) << 16u64) | ((b[i
        + 6] as u64) << 8u64) | (b[i + 7] as u64)
}

/// Appends the two big-endian bytes of `x`.
pub fn push_u16_be(v: &mut Vec<u8>, x: u16)
    ensures
        final(v)@ == old(v)@ + u16_bytes(x),
{
    v.push(#[verifier::truncate] ((x >> 8u16) as u8));
    v.push(#[verifier::truncate] (x as u8));
    assert(v@ =~= old(v)@ + u16_bytes(x));
}

/// Appends the four big-endian bytes of `x`.
pub fn push_u32_be(v: &mut Vec<u8>, x: u32)
    ensures
        final(v)@ == old(v)@ + u32_bytes(x),
{
    v.push(#[verifier::truncate] ((x >> 24u32) as u8));
    v.push(#[verifier::truncate] ((x >> 16u32) as u8));
    v.push(#[verifier::truncate] ((x >> 8u32) as u8));
    v.push(#[verifier::truncate] (x as u8));
    assert(v@ =~= old(v)@ + u32_bytes(x));
}

/// Appends the eight big-endian bytes of `x`.
pub fn push_u64_be(v: &mut Vec<u8>, x: u64)
    ensures
        final(v)@ == old(v)@ + u64_bytes(x),
{
    v.push(#[verifier::truncate] ((x >> 56u64) as u8));
    v.push(#[verifier::truncate] ((x >> 48u64) as u8));
    v.push(#[verifier::truncate] ((x >> 40u64) as u8));
    v.push(#[verifier::truncate] ((x >> 32u64) as u8));
    v.push(#[verifier::truncate] ((x >> 24u64) as u8));
    v.push(#[verifier::truncate] ((x >> 16u64) as u8));
    v.push(#[verifier::truncate] ((x >> 8u64) as u8));
    v.push(#[verifier::truncate] (x as u8));
    assert(v@ =~= old(v)@ + u64_bytes(x));
}

} // verus!
