//! Big-endian fields inside byte sequences.

use vstd::prelude::*;

verus! {

/// The two bytes of `v`, most significant first.
pub open spec fn be16(v: u16) -> Seq<u8> {
    seq![(v / 256) as u8, (v % 256) as u8]
}

/// The four bytes of `v`, most significant first.
pub open spec fn be32(v: u32) -> Seq<u8> {
    seq![
        (v / 0x100_0000) as u8,
        ((v / 0x1_0000) % 256) as u8,
        ((v / 256) % 256) as u8,
        (v % 256) as u8,
    ]
}

/// The 16-bit value whose big-endian bytes stand at `offset` in `s`.
pub open spec fn read_be16(s: Seq<u8>, offset: int) -> u16 {
    (s[offset] as int * 256 + s[offset + 1] as int) as u16
}

/// The 32-bit value whose big-endian bytes stand at `offset` in `s`.
pub open spec fn read_be32(s: Seq<u8>, offset: int) -> u32 {
    (s[offset] as int * 0x100_0000 + s[offset + 1] as int * 0x1_0000 + s[offset + 2] as int * 256
        + s[offset + 3] as int) as u32
}

/// `s` with the bytes of `field` written over it from `offset` on.
pub open spec fn overlay(s: Seq<u8>, offset: int, field: Seq<u8>) -> Seq<u8> {
    Seq::new(
        s.len(),
        |i: int|
            if offset <= i < offset + field.len() {
                field[i - offset]
            } else {
                s[i]
            },
    )
}

/// Reads the big-endian 16-bit field at `offset`.
pub fn get_u16(data: &[u8], offset: usize) -> (v: u16)
    requires
        offset + 2 <= data@.len(),
    ensures
        v == read_be16(data@, offset as int),
{
    let hi: u16 = data[offset] as u16;
    let lo: u16 = data[offset + 1] as u16;
    hi * 256 + lo
}

/// Reads the big-endian 32-bit field at `offset`.
pub fn get_u32(data: &[u8], offset: usize) -> (v: u32)
    requires
        offset + 4 <= data@.len(),
    ensures
        v == read_be32(data@, offset as int),
{
    let b0: u32 = data[offset] as u32;
    let b1: u32 = data[offset + 1] as u32;
    let b2: u32 = data[offset + 2] as u32;
    let b3: u32 = data[offset + 3] as u32;
    b0 * 0x100_0000 + b1 * 0x1_0000 + b2 * 256 + b3
}

/// Writes `v` as a big-endian 16-bit field at `offset`.
pub fn put_u16(data: &mut Vec<u8>, offset: usize, v: u16)
    requires
        offset + 2 <= old(data)@.len(),
    ensures
        final(data)@ == overlay(old(data)@, offset as int, be16(v)),
{
    let len = data.len();
    let hi: u8 = (v / 256) as u8;
    let lo: u8 = (v % 256) as u8;
    data[offset] = hi;
    data[offset + 1] = lo;
    assert(data@ =~= overlay(old(data)@, offset as int, be16(v)));
}

/// Writes `v` as a big-endian 32-bit field at `offset`.
pub fn put_u32(data: &mut Vec<u8>, offset: usize, v: u32)
    requires
        offset + 4 <= old(data)@.len(),
    ensures
        final(data)@ == overlay(old(data)@, offset as int, be32(v)),
{
    let len = data.len();
    let b0: u8 = (v / 0x100_0000) as u8;
    let b1: u8 = ((v / 0x1_0000) % 256) as u8;
    let b2: u8 = ((v / 256) % 256) as u8;
    let b3: u8 = (v % 256) as u8;
    data[offset] = b0;
    data[offset + 1] = b1;
    data[offset + 2] = b2;
    data[offset + 3] = b3;
    assert(data@ =~= overlay(old(data)@, offset as int, be32(v)));
}

/// Copies `src` over `data` from `offset` on.
pub fn copy_bytes(data: &mut Vec<u8>, offset: usize, src: &[u8])
    requires
        offset + src@.len() <= old(data)@.len(),
    ensures
        final(data)@ == overlay(old(data)@, offset as int, src@),
{
    let n = src.len();
    let len = data.len();
    let mut i: usize = 0;
    while i < n
        invariant
            n == src@.len(),
            len == data@.len(),
            len == old(data)@.len(),
            offset + n <= len,
            i <= n,
            data@ == overlay(old(data)@, offset as int, src@.subrange(0, i as int)),
        decreases n - i,
    {
        data[offset + i] = src[i];
        i = i + 1;
        assert(data@ =~= overlay(old(data)@, offset as int, src@.subrange(0, i as int)));
    }
    assert(src@.subrange(0, n as int) =~= src@);
}

} // verus!
