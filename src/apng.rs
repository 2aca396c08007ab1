use vstd::prelude::*;

use crate::bytes::{be32, dword_be_at, get_dword_be};

verus! {

/// What the chunk headers of a PNG file say about animation.
#[derive(Clone, Copy, Debug, PartialEq, Eq, Structural)]
pub struct ApngInfo {
    pub is_apng: bool,
    pub frame_count: u32,
    pub width: u32,
    pub height: u32,
}

/// The eight-byte PNG signature.
pub open spec fn png_signature() -> Seq<u8> {
    seq![0x89u8, 0x50u8, 0x4eu8, 0x47u8, 0x0du8, 0x0au8, 0x1au8, 0x0au8]
}

/// The four bytes at `pos` spell the chunk type `t`.
pub open spec fn chunk_type_is(data: Seq<u8>, pos: int, t: Seq<u8>) -> bool {
    data.subrange(pos, pos + 4) == t
}

pub open spec fn ihdr() -> Seq<u8> {
    seq![0x49u8, 0x48u8, 0x44u8, 0x52u8]
}

pub open spec fn actl() -> Seq<u8> {
    seq![0x61u8, 0x63u8, 0x54u8, 0x4cu8]
}

pub open spec fn iend() -> Seq<u8> {
    seq![0x49u8, 0x45u8, 0x4eu8, 0x44u8]
}

/// Bytes left from `pos` on, plus one; 0 past the end.
pub open spec fn remaining(data: Seq<u8>, pos: int) -> nat {
    if pos <= data.len() {
        (data.len() - pos + 1) as nat
    } else {
        0
    }
}

/// Walks the chunks from `pos` on, updating `info`. Each chunk is a 4-byte big-endian
/// length and a 4-byte type, then its data and a 4-byte CRC. `IHDR` gives the size and
/// `acTL` marks an animation and gives its frame count (when its data holds 8 bytes);
/// `IEND` or a chunk that runs past the end stops the walk. Only the first 8 data bytes
/// of `IHDR` and `acTL` are read, and an `acTL` shorter than 8 bytes skips only its CRC.
pub open spec fn scan_chunks(data: Seq<u8>, pos: int, info: ApngInfo) -> ApngInfo
    decreases remaining(data, pos),
{
    if pos < 0 || pos + 8 > data.len() {
        info
    } else {
        let length: nat = dword_be_at(data, pos) as nat;
        let body = pos + 8;
        if chunk_type_is(data, pos + 4, ihdr()) {
            if body + 8 > data.len() {
                info
            } else {
                let next_info = ApngInfo {
                    width: dword_be_at(data, body) as u32,
                    height: dword_be_at(data, body + 4) as u32,
                    ..info
                };
                let next = body + 8 + (if length >= 8 {
                    length - 8
                } else {
                    0
                }) + 4;
                scan_chunks(data, next, next_info)
            }
        } else if chunk_type_is(data, pos + 4, actl()) {
            let marked = ApngInfo { is_apng: true, ..info };
            if length >= 8 {
                if body + 8 > data.len() {
                    marked
                } else {
                    let next_info = ApngInfo {
                        frame_count: dword_be_at(data, body) as u32,
                        ..marked
                    };
                    scan_chunks(data, body + length + 4, next_info)
                }
            } else {
                scan_chunks(data, body + 4, marked)
            }
        } else if chunk_type_is(data, pos + 4, iend()) {
            info
        } else {
            scan_chunks(data, body + length + 4, info)
        }
    }
}

/// What a file that is too short to carry a signature is taken for: a single still image.
pub open spec fn still_image() -> ApngInfo {
    ApngInfo { is_apng: false, frame_count: 1, width: 0, height: 0 }
}

/// The animation info of a whole file: `None` when it is shorter than the signature.
pub open spec fn apng_info_of(data: Seq<u8>) -> Option<ApngInfo> {
    if data.len() < 8 {
        None
    } else if data.subrange(0, 8) != png_signature() {
        Some(still_image())
    } else {
        Some(scan_chunks(data, 8, still_image()))
    }
}

fn type_matches(data: &[u8], pos: usize, t: [u8; 4]) -> (r: bool)
    requires
        pos + 4 <= data@.len(),
    ensures
        r == chunk_type_is(data@, pos as int, t@),
{
    let r = data[pos] == t[0] && data[pos + 1] == t[1] && data[pos + 2] == t[2] && data[pos + 3]
        == t[3];
    proof {
        if r {
            assert(data@.subrange(pos as int, pos + 4) =~= t@);
        } else if data@.subrange(pos as int, pos + 4) == t@ {
            assert(data@.subrange(pos as int, pos + 4)[0] == t@[0]);
            assert(data@.subrange(pos as int, pos + 4)[1] == t@[1]);
            assert(data@.subrange(pos as int, pos + 4)[2] == t@[2]);
            assert(data@.subrange(pos as int, pos + 4)[3] == t@[3]);
        }
    }
    r
}

/// Reads the PNG signature and walks the chunk headers to tell an animated PNG from a
/// still one, as `apng_info_of` describes.
pub fn check_apng(data: &[u8]) -> (r: Option<ApngInfo>)
    ensures
        r == apng_info_of(data@),
{
    let len = data.len();
    if len < 8 {
        return None;
    }
    let sig: [u8; 8] = [0x89, 0x50, 0x4e, 0x47, 0x0d, 0x0a, 0x1a, 0x0a];
    let mut k: usize = 0;
    while k < 8
        invariant
            k <= 8,
            len == data@.len(),
            len >= 8,
            sig@ == png_signature(),
            forall|i: int| 0 <= i < k ==> data@[i] == sig@[i],
        decreases 8 - k,
    {
        if data[k] != sig[k] {
            proof {
                assert(data@.subrange(0, 8)[k as int] != png_signature()[k as int]);
            }
            return Some(ApngInfo { is_apng: false, frame_count: 1, width: 0, height: 0 });
        }
        k = k + 1;
    }
    assert(data@.subrange(0, 8) =~= png_signature());
    assert(apng_info_of(data@) == Some(scan_chunks(data@, 8, still_image())));
    let mut info = ApngInfo { is_apng: false, frame_count: 1, width: 0, height: 0 };
    let mut pos: usize = 8;
    loop
        invariant
            len == data@.len(),
            pos <= len,
            scan_chunks(data@, pos as int, info) == scan_chunks(data@, 8, still_image()),
            apng_info_of(data@) == Some(scan_chunks(data@, 8, still_image())),
        decreases len - pos,
    {
        if len - pos < 8 {
            proof {
                assert(scan_chunks(data@, pos as int, info) == info);
            }
            return Some(info);
        }
        let length = get_dword_be(data, pos);
        let body = pos + 8;
        let rest: u64 = (len - body) as u64;
        if type_matches(data, pos + 4, [0x49, 0x48, 0x44, 0x52]) {
            if len - body < 8 {
                return Some(info);
            }
            info.width = get_dword_be(data, body);
            info.height = get_dword_be(data, body + 4);
            let skip: u64 = 8 + (if length >= 8 {
                length - 8
            } else {
                0
            }) as u64 + 4;
            if skip > rest {
                proof {
                    assert(scan_chunks(data@, (body + skip) as int, info) == info);
                }
                return Some(info);
            }
            pos = body + skip as usize;
        } else if type_matches(data, pos + 4, [0x61, 0x63, 0x54, 0x4c]) {
            info.is_apng = true;
            if length >= 8 {
                if len - body < 8 {
                    return Some(info);
                }
                info.frame_count = get_dword_be(data, body);
                let skip: u64 = length as u64 + 4;
                if skip > rest {
                    proof {
                        assert(scan_chunks(data@, (body + skip) as int, info) == info);
                    }
                    return Some(info);
                }
                pos = body + skip as usize;
            } else {
                if 4 > rest {
                    proof {
                        assert(scan_chunks(data@, body + 4, info) == info);
                    }
                    return Some(info);
                }
                pos = body + 4;
            }
        } else if type_matches(data, pos + 4, [0x49, 0x45, 0x4e, 0x44]) {
            return Some(info);
        } else {
            let skip: u64 = length as u64 + 4;
            if skip > rest {
                proof {
                    assert(scan_chunks(data@, (body + skip) as int, info) == info);
                }
                return Some(info);
            }
            pos = body + skip as usize;
        }
    }
}

} // verus!
