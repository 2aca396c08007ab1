use vstd::prelude::*;

use crate::apng::remaining;

verus! {

/// Big-endian value of the two bytes at `pos`.
pub open spec fn be16_at(data: Seq<u8>, pos: int) -> nat {
    (data[pos] * 256 + data[pos + 1]) as nat
}

/// One marker segment of a JPEG file.
#[derive(Clone, Copy, Debug, PartialEq, Eq)]
pub struct JpegSegment {
    /// Position of the segment's 0xFF byte.
    pub offset: usize,
    pub marker: u8,
    pub length: u16,
    /// `(width, height)` of a start-of-frame segment (markers 0xC0 to 0xC3) that lies
    /// inside the file.
    pub frame_size: Option<(u16, u16)>,
}

/// The segments of a JPEG file after its start-of-image marker.
pub struct JpegLayout {
    pub segments: Vec<JpegSegment>,
    /// Where a segment was expected but no 0xFF byte stood.
    pub bad_marker_at: Option<usize>,
    /// Where the walk stopped: past the last segment (at most the end of the file), at
    /// the end-of-image marker, or at the byte that was not a marker.
    pub end: usize,
}

/// A segment header (0xFF, marker, two length bytes) starts at `pos`.
pub open spec fn has_segment(data: Seq<u8>, pos: int) -> bool {
    0 <= pos && pos + 4 <= data.len() && data[pos] == 0xff
}

/// Where the walk goes after the segment at `pos`.
pub open spec fn next_segment(data: Seq<u8>, pos: int) -> int {
    pos + be16_at(data, pos + 2) + 2
}

/// Offsets of the segments walked from `pos`, up to and including end-of-image (0xD9).
pub open spec fn segment_offsets(data: Seq<u8>, pos: int) -> Seq<int>
    decreases remaining(data, pos),
{
    if !has_segment(data, pos) {
        Seq::empty()
    } else if data[pos + 1] == 0xd9 {
        seq![pos]
    } else {
        seq![pos] + segment_offsets(data, next_segment(data, pos))
    }
}

/// Where the walk from `pos` meets a byte that should start a segment and is not 0xFF.
pub open spec fn bad_marker(data: Seq<u8>, pos: int) -> Option<int>
    decreases remaining(data, pos),
{
    if pos < 0 || pos + 4 > data.len() {
        None
    } else if data[pos] != 0xff {
        Some(pos)
    } else if data[pos + 1] == 0xd9 {
        None
    } else {
        bad_marker(data, next_segment(data, pos))
    }
}

/// Where the walk from `pos` stops.
pub open spec fn walk_end(data: Seq<u8>, pos: int) -> int
    decreases remaining(data, pos),
{
    if !has_segment(data, pos) || data[pos + 1] == 0xd9 {
        pos
    } else {
        walk_end(data, next_segment(data, pos))
    }
}

/// `s` describes the segment at `off`.
pub open spec fn describes_segment(data: Seq<u8>, s: JpegSegment, off: int) -> bool {
    let length = be16_at(data, off + 2);
    &&& s.offset == off
    &&& s.marker == data[off + 1]
    &&& s.length == length
    &&& s.frame_size == if 0xc0 <= data[off + 1] <= 0xc3 && off + length <= data.len() && off + 9
        <= data.len() {
        Some((be16_at(data, off + 7) as u16, be16_at(data, off + 5) as u16))
    } else {
        None
    }
}

/// The file starts with the start-of-image marker 0xFF 0xD8.
pub open spec fn has_soi(data: Seq<u8>) -> bool {
    data.len() >= 2 && data[0] == 0xff && data[1] == 0xd8
}

fn be16(data: &[u8], pos: usize) -> (v: u16)
    requires
        pos + 2 <= data@.len(),
    ensures
        v == be16_at(data@, pos as int),
{
    data[pos] as u16 * 256 + data[pos + 1] as u16
}

/// Walks the marker segments of a JPEG file, or returns `None` when it does not start
/// with the start-of-image marker.
pub fn jpeg_layout(data: &[u8]) -> (r: Option<JpegLayout>)
    ensures
        r is None <==> !has_soi(data@),
        r matches Some(l) ==> {
            let offs = segment_offsets(data@, 2);
            &&& l.segments@.len() == offs.len()
            &&& forall|i: int|
                0 <= i < offs.len() ==> describes_segment(data@, #[trigger] l.segments@[i], offs[i])
            &&& l.bad_marker_at matches Some(p) ==> bad_marker(data@, 2) == Some(p as int)
            &&& l.bad_marker_at is None ==> bad_marker(data@, 2) is None
            &&& l.end == if walk_end(data@, 2) <= data@.len() {
                walk_end(data@, 2)
            } else {
                data@.len() as int
            }
        },
{
    let len = data.len();
    if len < 2 || data[0] != 0xff || data[1] != 0xd8 {
        return None;
    }
    let mut segments: Vec<JpegSegment> = Vec::new();
    let mut pos: usize = 2;
    loop
        invariant
            len == data@.len(),
            2 <= pos <= len,
            has_soi(data@),
            segments@.len() + segment_offsets(data@, pos as int).len() == segment_offsets(data@, 2).len(),
            forall|i: int|
                0 <= i < segments@.len() ==> describes_segment(
                    data@,
                    #[trigger] segments@[i],
                    segment_offsets(data@, 2)[i],
                ),
            forall|j: int|
                0 <= j < segment_offsets(data@, pos as int).len() ==> segment_offsets(data@, pos as int)[j]
                    == segment_offsets(data@, 2)[segments@.len() + j],
            bad_marker(data@, pos as int) == bad_marker(data@, 2),
            walk_end(data@, pos as int) == walk_end(data@, 2),
        decreases len + 1 - pos,
    {
        let ghost offs = segment_offsets(data@, pos as int);
        if len - pos < 4 {
            return Some(JpegLayout { segments, bad_marker_at: None, end: pos });
        }
        if data[pos] != 0xff {
            return Some(JpegLayout { segments, bad_marker_at: Some(pos), end: pos });
        }
        let marker = data[pos + 1];
        let length = be16(data, pos + 2);
        let frame_size = if 0xc0 <= marker && marker <= 0xc3 && length as usize <= len - pos
            && 9 <= len - pos {
            Some((be16(data, pos + 7), be16(data, pos + 5)))
        } else {
            None
        };
        let s = JpegSegment { offset: pos, marker, length, frame_size };
        proof {
            assert(offs[0] == pos);
            assert(describes_segment(data@, s, pos as int));
        }
        segments.push(s);
        if marker == 0xd9 {
            return Some(JpegLayout { segments, bad_marker_at: None, end: pos });
        }
        proof {
            let next = segment_offsets(data@, next_segment(data@, pos as int));
            assert(offs == seq![pos as int] + next);
            assert forall|j: int| 0 <= j < next.len() implies next[j] == segment_offsets(data@, 2)[segments@.len() + j] by {
                assert(next[j] == offs[j + 1]);
            }
        }
        if length as usize + 2 > len - pos {
            proof {
                let next = next_segment(data@, pos as int);
                assert(walk_end(data@, next) == next);
                assert(bad_marker(data@, next) is None);
                assert(segment_offsets(data@, next).len() == 0);
                assert(offs == seq![pos as int] + segment_offsets(data@, next));
            }
            return Some(JpegLayout { segments, bad_marker_at: None, end: len });
        }
        pos = pos + length as usize + 2;
    }
}

} // verus!
