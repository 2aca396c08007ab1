use vstd::prelude::*;

use crate::bytes::{dword_le_at, get_dword_le, get_word_le, pow2_small, pow2_upto8, word_le_at};

verus! {

/// Size of the BMP file header and the classic info header together.
pub const BMP_HEADER_LEN: usize = 54;

/// The header fields of a BMP file and where its colour table entries lie.
pub struct BmpLayout {
    pub file_size: u32,
    pub data_offset: u32,
    pub header_size: u32,
    pub width: u32,
    pub height: u32,
    pub planes: u16,
    pub bit_count: u16,
    pub compression: u32,
    /// Number of colour table entries, for images of at most 8 bits per pixel.
    pub color_count: Option<u32>,
    /// Offsets of the colour table entries that lie wholly inside the file.
    pub color_entries: Vec<usize>,
    /// First and last byte between the headers and the pixel data, when there are any.
    pub gap: Option<(usize, usize)>,
}

/// Colour table size: the stored count, or `2^bit_count` when it is 0.
pub open spec fn color_count_of(data: Seq<u8>) -> int {
    if dword_le_at(data, 46) == 0 {
        pow2_small(word_le_at(data, 28))
    } else {
        dword_le_at(data, 46)
    }
}

/// Offset of the colour table: after the 14-byte file header and the info header.
pub open spec fn color_table_at(data: Seq<u8>) -> int {
    14 + dword_le_at(data, 14)
}

/// Offsets of the first `n` colour entries that lie inside the file.
pub open spec fn color_entries_upto(data: Seq<u8>, n: int) -> Seq<int>
    decreases n,
{
    if n <= 0 {
        Seq::empty()
    } else {
        let off = color_table_at(data) + 4 * (n - 1);
        color_entries_upto(data, n - 1) + if off + 4 <= data.len() {
            seq![off]
        } else {
            Seq::<int>::empty()
        }
    }
}

/// `l` holds what the headers of `data` say.
pub open spec fn is_bmp_layout(data: Seq<u8>, l: BmpLayout) -> bool {
    let bit_count = word_le_at(data, 28);
    let data_offset = dword_le_at(data, 10);
    &&& l.file_size == dword_le_at(data, 2)
    &&& l.data_offset == data_offset
    &&& l.header_size == dword_le_at(data, 14)
    &&& l.width == dword_le_at(data, 18)
    &&& l.height == dword_le_at(data, 22)
    &&& l.planes == word_le_at(data, 26)
    &&& l.bit_count == bit_count
    &&& l.compression == dword_le_at(data, 30)
    &&& l.color_count == if bit_count <= 8 {
        Some(color_count_of(data) as u32)
    } else {
        None::<u32>
    }
    &&& l.color_entries@.map_values(|o: usize| o as int) == if bit_count <= 8 {
        color_entries_upto(data, color_count_of(data))
    } else {
        Seq::<int>::empty()
    }
    &&& l.gap == if data_offset > 54 {
        Some((54usize, (data_offset - 1) as usize))
    } else {
        None::<(usize, usize)>
    }
}

proof fn lemma_entries_past_end(data: Seq<u8>, n: int, m: int)
    requires
        0 <= n <= m,
        color_table_at(data) + 4 * n + 4 > data.len(),
    ensures
        color_entries_upto(data, m) == color_entries_upto(data, n),
    decreases m - n,
{
    if m > n {
        lemma_entries_past_end(data, n, m - 1);
    }
}

/// The header fields of a BMP file, or `None` when it is shorter than the headers.
pub fn analyse_bmp(data: &[u8]) -> (r: Option<BmpLayout>)
    ensures
        r is None <==> data@.len() < 54,
        r matches Some(l) ==> is_bmp_layout(data@, l),
{
    let len = data.len();
    if len < BMP_HEADER_LEN {
        return None;
    }
    let bit_count = get_word_le(data, 28);
    let data_offset = get_dword_le(data, 10);
    let header_size = get_dword_le(data, 14);
    let mut color_entries: Vec<usize> = Vec::new();
    let color_count = if bit_count <= 8 {
        let stored = get_dword_le(data, 46);
        let count: u32 = if stored == 0 {
            pow2_upto8(bit_count as u32)
        } else {
            stored
        };
        let table: u64 = 14 + header_size as u64;
        let mut i: u32 = 0;
        while i < count
            invariant
                len == data@.len(),
                table == color_table_at(data@),
                i <= count,
                color_entries@.map_values(|o: usize| o as int) == color_entries_upto(data@, i as int),
            ensures
                color_entries@.map_values(|o: usize| o as int) == color_entries_upto(
                    data@,
                    count as int,
                ),
            decreases count - i,
        {
            let off: u64 = table + 4 * (i as u64);
            if off + 4 > len as u64 {
                proof {
                    lemma_entries_past_end(data@, i as int, count as int);
                }
                break;
            }
            color_entries.push(off as usize);
            i = i + 1;
            proof {
                assert(color_entries@.map_values(|o: usize| o as int) =~= color_entries_upto(
                    data@,
                    i as int,
                ));
            }
        }
        assert(count == color_count_of(data@));
        Some(count)
    } else {
        assert(color_entries@.map_values(|o: usize| o as int) =~= Seq::<int>::empty());
        None
    };
    let gap = if data_offset > 54 {
        Some((54usize, (data_offset - 1) as usize))
    } else {
        None
    };
    Some(
        BmpLayout {
            file_size: get_dword_le(data, 2),
            data_offset,
            header_size,
            width: get_dword_le(data, 18),
            height: get_dword_le(data, 22),
            planes: get_word_le(data, 26),
            bit_count,
            compression: get_dword_le(data, 30),
            color_count,
            color_entries,
            gap,
        },
    )
}

} // verus!
