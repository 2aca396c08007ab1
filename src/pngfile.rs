use vstd::prelude::*;

use crate::apng::{iend, png_signature, remaining};
use crate::bytes::{dword_be_at, get_dword_be};

verus! {

/// CRC-32 (IEEE) of a byte sequence, as `crc32fast` computes it.
pub uninterp spec fn crc32_of(bytes: Seq<u8>) -> u32;

/// Relies on `crc32fast::hash`: the CRC-32 of the given bytes, which depends on them alone.
#[verifier::external_body]
fn crc32(data: &[u8], start: usize, end: usize) -> (r: u32)
    requires
        start <= end <= data@.len(),
    ensures
        r == crc32_of(data@.subrange(start as int, end as int)),
{
    crc32fast::hash(&data[start..end])
}

/// One chunk of a PNG file, with the CRC stored after it and the CRC of its type and data.
#[derive(Clone, Copy, Debug)]
pub struct PngChunk {
    /// Position of the chunk's length field.
    pub offset: usize,
    pub length: u32,
    pub kind: [u8; 4],
    pub stored_crc: u32,
    pub computed_crc: u32,
}

/// Length field of the chunk at `pos`.
pub open spec fn chunk_length(data: Seq<u8>, pos: int) -> nat {
    dword_be_at(data, pos) as nat
}

/// The chunk at `pos` is complete: its header, data and CRC lie inside the file (the CRC
/// may be cut short, and then reads as 0).
pub open spec fn chunk_fits(data: Seq<u8>, pos: int) -> bool {
    0 <= pos && pos + 12 <= data.len() && pos + 8 + chunk_length(data, pos) <= data.len()
}

/// Offsets of the chunks walked from `pos`: up to and including `IEND`, stopping at the
/// first chunk that does not fit.
pub open spec fn chunk_offsets(data: Seq<u8>, pos: int) -> Seq<int>
    decreases remaining(data, pos),
{
    if !chunk_fits(data, pos) {
        Seq::empty()
    } else if data.subrange(pos + 4, pos + 8) == iend() {
        seq![pos]
    } else {
        seq![pos] + chunk_offsets(data, pos + 12 + chunk_length(data, pos))
    }
}

/// `c` describes the chunk at `off`.
pub open spec fn describes(data: Seq<u8>, c: PngChunk, off: int) -> bool {
    let len = chunk_length(data, off);
    &&& c.offset == off
    &&& c.length == len
    &&& c.kind@ == data.subrange(off + 4, off + 8)
    &&& c.stored_crc == dword_be_at(data, off + 8 + len)
    &&& c.computed_crc == crc32_of(data.subrange(off + 4, off + 8 + len))
}

/// The chunks of a PNG file, or `None` when it does not start with the PNG signature.
pub fn png_chunks(data: &[u8]) -> (r: Option<Vec<PngChunk>>)
    ensures
        r is None <==> (data@.len() < 8 || data@.subrange(0, 8) != png_signature()),
        r matches Some(v) ==> {
            let offs = chunk_offsets(data@, 8);
            &&& v@.len() == offs.len()
            &&& forall|i: int| 0 <= i < v@.len() ==> describes(data@, #[trigger] v@[i], offs[i])
        },
{
    let len = data.len();
    if len < 8 {
        return None;
    }
    let sig: [u8; 8] = [0x89, 0x50, 0x4e, 0x47, 0x0d, 0x0a, 0x1a, 0x0a];
    let mut k: usize = 0;
    while k < 8
        invariant
            k <= 8,
            len == data@.len(),
            len >= 8,
            sig@ == png_signature(),
            forall|i: int| 0 <= i < k ==> data@[i] == sig@[i],
        decreases 8 - k,
    {
        if data[k] != sig[k] {
            proof {
                assert(data@.subrange(0, 8)[k as int] != png_signature()[k as int]);
            }
            return None;
        }
        k = k + 1;
    }
    assert(data@.subrange(0, 8) =~= png_signature());
    let mut chunks: Vec<PngChunk> = Vec::new();
    let mut pos: usize = 8;
    loop
        invariant
            len == data@.len(),
            8 <= pos <= len,
            data@.subrange(0, 8) == png_signature(),
            chunks@.len() + chunk_offsets(data@, pos as int).len() == chunk_offsets(data@, 8).len(),
            forall|i: int|
                0 <= i < chunks@.len() ==> describes(
                    data@,
                    #[trigger] chunks@[i],
                    chunk_offsets(data@, 8)[i],
                ),
            forall|j: int|
                0 <= j < chunk_offsets(data@, pos as int).len() ==> chunk_offsets(data@, pos as int)[j]
                    == chunk_offsets(data@, 8)[chunks@.len() + j],
        decreases len - pos,
    {
        let ghost offs = chunk_offsets(data@, pos as int);
        if len - pos < 12 {
            assert(offs.len() == 0);
            return Some(chunks);
        }
        let length = get_dword_be(data, pos);
        if (length as u64) > ((len - pos - 8) as u64) {
            assert(offs.len() == 0);
            return Some(chunks);
        }
        let end: usize = pos + 8 + length as usize;
        let kind: [u8; 4] = [data[pos + 4], data[pos + 5], data[pos + 6], data[pos + 7]];
        let c = PngChunk {
            offset: pos,
            length,
            kind,
            stored_crc: get_dword_be(data, end),
            computed_crc: crc32(data, pos + 4, end),
        };
        proof {
            assert(kind@ =~= data@.subrange(pos + 4, pos + 8));
            assert(offs[0] == pos);
            assert(describes(data@, c, pos as int));
        }
        chunks.push(c);
        let is_end = kind[0] == 0x49 && kind[1] == 0x45 && kind[2] == 0x4e && kind[3] == 0x44;
        proof {
            if is_end {
                assert(kind@ =~= iend());
            } else if data@.subrange(pos + 4, pos + 8) == iend() {
                assert(kind@[0] == iend()[0] && kind@[1] == iend()[1] && kind@[2] == iend()[2]
                    && kind@[3] == iend()[3]);
            }
        }
        if is_end {
            return Some(chunks);
        }
        if len - end < 4 {
            proof {
                assert(chunk_offsets(data@, end + 4).len() == 0);
            }
            return Some(chunks);
        }
        proof {
            let next = chunk_offsets(data@, end + 4);
            assert(offs == seq![pos as int] + next);
            assert forall|j: int| 0 <= j < next.len() implies next[j] == chunk_offsets(data@, 8)[chunks@.len() + j] by {
                assert(next[j] == offs[j + 1]);
            }
        }
        pos = end + 4;
    }
}

} // verus!
