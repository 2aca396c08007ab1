use vstd::prelude::*;

verus! {

/// Little-endian value of two bytes.
pub open spec fn le16(b0: u8, b1: u8) -> int {
    b0 + 256 * b1
}

/// Little-endian value of four bytes.
pub open spec fn le32(b0: u8, b1: u8, b2: u8, b3: u8) -> int {
    b0 + 256 * b1 + 65536 * b2 + 16777216 * b3
}

/// Big-endian value of four bytes.
pub open spec fn be32(b0: u8, b1: u8, b2: u8, b3: u8) -> int {
    le32(b3, b2, b1, b0)
}

/// The byte at `offset`, or 0 past the end.
pub open spec fn byte_at(data: Seq<u8>, offset: int) -> u8 {
    if offset < data.len() {
        data[offset]
    } else {
        0
    }
}

/// The little-endian word at `offset`, or 0 unless both bytes are present.
pub open spec fn word_le_at(data: Seq<u8>, offset: int) -> int {
    if offset + 1 >= data.len() {
        0
    } else {
        le16(data[offset], data[offset + 1])
    }
}

/// The little-endian double word at `offset`, or 0 unless all four bytes are present.
pub open spec fn dword_le_at(data: Seq<u8>, offset: int) -> int {
    if offset + 3 >= data.len() {
        0
    } else {
        le32(data[offset], data[offset + 1], data[offset + 2], data[offset + 3])
    }
}

/// The big-endian double word at `offset`, or 0 unless all four bytes are present.
pub open spec fn dword_be_at(data: Seq<u8>, offset: int) -> int {
    if offset + 3 >= data.len() {
        0
    } else {
        be32(data[offset], data[offset + 1], data[offset + 2], data[offset + 3])
    }
}

/// `2^n` for `n` up to 8.
pub open spec fn pow2_small(n: int) -> int
    decreases n,
{
    if n <= 0 {
        1
    } else {
        2 * pow2_small(n - 1)
    }
}

pub proof fn lemma_pow2_small_bound(n: int)
    requires
        0 <= n <= 8,
    ensures
        pow2_small(n) <= 256,
{
    reveal_with_fuel(pow2_small, 9);
}

/// `2^n` for `n` up to 8.
pub fn pow2_upto8(n: u32) -> (p: u32)
    requires
        n <= 8,
    ensures
        p == pow2_small(n as int),
        p <= 256,
{
    let mut p: u32 = 1;
    let mut k: u32 = 0;
    while k < n
        invariant
            k <= n <= 8,
            p == pow2_small(k as int),
            p <= 256,
        decreases n - k,
    {
        proof {
            lemma_pow2_small_bound(k as int + 1);
        }
        p = p * 2;
        k = k + 1;
    }
    p
}

pub fn uf(data: &[u8], offset: usize) -> (b: u8)
    ensures
        b == byte_at(data@, offset as int),
{
    if offset >= data.len() {
        0
    } else {
        data[offset]
    }
}

pub fn get_word_le(data: &[u8], offset: usize) -> (w: u16)
    ensures
        w == word_le_at(data@, offset as int),
{
    if offset >= data.len() || offset + 1 >= data.len() {
        0
    } else {
        data[offset] as u16 + 256 * (data[offset + 1] as u16)
    }
}

pub fn get_dword_le(data: &[u8], offset: usize) -> (w: u32)
    ensures
        w == dword_le_at(data@, offset as int),
{
    if offset >= data.len() || data.len() - offset <= 3 {
        0
    } else {
        data[offset] as u32 + 256 * (data[offset + 1] as u32) + 65536 * (data[offset + 2] as u32)
            + 16777216 * (data[offset + 3] as u32)
    }
}

pub fn get_dword_be(data: &[u8], offset: usize) -> (w: u32)
    ensures
        w == dword_be_at(data@, offset as int),
{
    if offset >= data.len() || data.len() - offset <= 3 {
        0
    } else {
        data[offset + 3] as u32 + 256 * (data[offset + 2] as u32) + 65536 * (data[offset
            + 1] as u32) + 16777216 * (data[offset] as u32)
    }
}

} // verus!
