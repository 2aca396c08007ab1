use vstd::prelude::*;

use crate::apng::remaining;
use crate::bytes::{get_word_le, pow2_small, pow2_upto8, word_le_at};

verus! {

/// What the walk over a GIF file's blocks meets, with the position it met it at.
#[derive(Clone, Copy, Debug, PartialEq, Eq, Structural)]
pub enum GifEvent {
    /// An image descriptor (0x2C); `true` when its 10 bytes lie inside the file.
    ImageDescriptor(usize, bool),
    /// A graphic control extension (0x21 0xF9); `true` when its 8 bytes lie inside the file.
    GraphicControl(usize, bool),
    /// A comment extension (0x21 0xFE); its sub-blocks follow as `CommentText`.
    CommentExtension(usize),
    /// One comment sub-block: start and length of its text.
    CommentText(usize, usize),
    /// Another extension, with its label byte.
    UnknownExtension(usize, u8),
    /// The trailer (0x3B), which ends the walk.
    Trailer(usize),
}

/// The logical screen descriptor of a GIF file and what follows it.
pub struct GifLayout {
    pub width: u16,
    pub height: u16,
    pub flags: u8,
    pub has_global_table: bool,
    pub color_resolution: u8,
    pub sorted: bool,
    /// Entries the flags announce for the global colour table.
    pub global_table_size: u32,
    /// Offsets of the global colour table entries that lie inside the file.
    pub global_colors: Vec<usize>,
    pub events: Vec<GifEvent>,
}

/// Size of the GIF header and logical screen descriptor.
pub const GIF_HEADER_LEN: usize = 13;

pub open spec fn table_size_of(flags: u8) -> int {
    if flags >= 128 {
        pow2_small(flags % 8 + 1)
    } else {
        0
    }
}

/// Number of global colour entries read: as many announced as lie inside the file.
pub open spec fn global_count(data: Seq<u8>) -> int {
    let size = table_size_of(data[10]);
    let fit = (data.len() - 13) / 3;
    if size <= fit {
        size
    } else {
        fit
    }
}

/// The sub-blocks of a comment from `pos` on, and the position after them. Walking stops
/// at a zero length byte, at the end of the file, or at a sub-block that runs past it.
pub open spec fn comment_walk(data: Seq<u8>, pos: int) -> (Seq<GifEvent>, int)
    decreases remaining(data, pos),
{
    if pos < 0 || pos >= data.len() || data[pos] == 0 {
        (Seq::empty(), pos + 1)
    } else {
        let size = data[pos] as int;
        let start = pos + 1;
        if start + size <= data.len() {
            let rest = comment_walk(data, start + size);
            (seq![GifEvent::CommentText(start as usize, size as usize)] + rest.0, rest.1)
        } else {
            (Seq::empty(), start + 1)
        }
    }
}

proof fn lemma_comment_walk_advances(data: Seq<u8>, pos: int)
    requires
        0 <= pos,
    ensures
        comment_walk(data, pos).1 > pos,
    decreases remaining(data, pos),
{
    if pos < data.len() && data[pos] != 0 {
        let size = data[pos] as int;
        if pos + 1 + size <= data.len() {
            lemma_comment_walk_advances(data, pos + 1 + size);
        }
    }
}

/// The blocks met from `pos` on.
pub open spec fn gif_events(data: Seq<u8>, pos: int) -> Seq<GifEvent>
    decreases remaining(data, pos),
{
    if pos < 0 || pos >= data.len() {
        Seq::empty()
    } else if data[pos] == 0x2c {
        seq![GifEvent::ImageDescriptor(pos as usize, pos + 10 <= data.len())] + gif_events(
            data,
            pos + 10,
        )
    } else if data[pos] == 0x21 {
        if pos + 2 > data.len() {
            Seq::empty()
        } else if data[pos + 1] == 0xf9 {
            seq![GifEvent::GraphicControl(pos as usize, pos + 8 <= data.len())] + gif_events(
                data,
                pos + 8,
            )
        } else if data[pos + 1] == 0xfe {
            let c = comment_walk(data, pos + 2);
            if c.1 > pos {
                seq![GifEvent::CommentExtension(pos as usize)] + c.0 + gif_events(data, c.1)
            } else {
                Seq::empty()
            }
        } else {
            seq![GifEvent::UnknownExtension(pos as usize, data[pos + 1])] + gif_events(
                data,
                pos + 2,
            )
        }
    } else if data[pos] == 0x3b {
        seq![GifEvent::Trailer(pos as usize)]
    } else {
        gif_events(data, pos + 1)
    }
}

/// `l` holds what the screen descriptor and blocks of `data` say.
pub open spec fn is_gif_layout(data: Seq<u8>, l: GifLayout) -> bool {
    let flags = data[10];
    let n = global_count(data);
    &&& l.width == word_le_at(data, 6)
    &&& l.height == word_le_at(data, 8)
    &&& l.flags == flags
    &&& l.has_global_table == (flags >= 128)
    &&& l.color_resolution == (flags / 16) % 8 + 1
    &&& l.sorted == ((flags / 8) % 2 == 1)
    &&& l.global_table_size == table_size_of(flags)
    &&& l.global_colors@.len() == n
    &&& forall|i: int| 0 <= i < n ==> #[trigger] l.global_colors@[i] == 13 + 3 * i
    &&& l.events@ == gif_events(data, 13 + 3 * n)
}

/// Walks a comment's sub-blocks from `pos`, appending them to `events`; returns the
/// position after them, or `None` when that lies past the end of the file.
fn walk_comment(data: &[u8], pos: usize, events: &mut Vec<GifEvent>) -> (next: Option<usize>)
    requires
        pos <= data@.len(),
    ensures
        final(events)@ == old(events)@ + comment_walk(data@, pos as int).0,
        next == if comment_walk(data@, pos as int).1 <= data@.len() {
            Some(comment_walk(data@, pos as int).1 as usize)
        } else {
            None::<usize>
        },
{
    let len = data.len();
    let ghost start_events = events@;
    let mut p: usize = pos;
    loop
        invariant
            len == data@.len(),
            p <= len,
            old(events)@ == start_events,
            events@ + comment_walk(data@, p as int).0 == start_events + comment_walk(
                data@,
                pos as int,
            ).0,
            comment_walk(data@, p as int).1 == comment_walk(data@, pos as int).1,
        decreases len - p,
    {
        if p >= len {
            assert(events@ =~= events@ + comment_walk(data@, p as int).0);
            return None;
        }
        if data[p] == 0 {
            assert(events@ =~= events@ + comment_walk(data@, p as int).0);
            return Some(p + 1);
        }
        let size = data[p] as usize;
        let start = p + 1;
        if size > len - start {
            assert(events@ =~= events@ + comment_walk(data@, p as int).0);
            if start == len {
                return None;
            }
            return Some(start + 1);
        }
        let ghost rest = comment_walk(data@, (start + size) as int);
        events.push(GifEvent::CommentText(start, size));
        proof {
            assert(comment_walk(data@, p as int).0 == seq![GifEvent::CommentText(start, size)]
                + rest.0);
            assert(events@ + rest.0 =~= start_events + comment_walk(data@, pos as int).0);
        }
        p = start + size;
    }
}

/// The screen descriptor and blocks of a GIF file, or `None` when it is shorter than
/// the 13-byte header.
pub fn analyse_gif(data: &[u8]) -> (r: Option<GifLayout>)
    ensures
        r is None <==> data@.len() < 13,
        r matches Some(l) ==> is_gif_layout(data@, l),
{
    let len = data.len();
    if len < GIF_HEADER_LEN {
        return None;
    }
    let flags = data[10];
    let has_global_table = flags >= 128;
    let global_table_size: u32 = if has_global_table {
        pow2_upto8((flags % 8) as u32 + 1)
    } else {
        0
    };
    let mut global_colors: Vec<usize> = Vec::new();
    let mut pos: usize = 13;
    let mut i: u32 = 0;
    while i < global_table_size
        invariant
            len == data@.len(),
            len >= 13,
            global_table_size == table_size_of(data@[10]),
            i <= global_table_size,
            pos == 13 + 3 * i,
            pos <= len,
            global_colors@.len() == i,
            forall|k: int| 0 <= k < i ==> #[trigger] global_colors@[k] == 13 + 3 * k,
            i <= global_count(data@),
        ensures
            global_colors@.len() == global_count(data@),
            pos == 13 + 3 * global_count(data@),
            forall|k: int| 0 <= k < global_colors@.len() ==> #[trigger] global_colors@[k] == 13 + 3 * k,
        decreases global_table_size - i,
    {
        if len - pos < 3 {
            break;
        }
        global_colors.push(pos);
        pos = pos + 3;
        i = i + 1;
    }
    let ghost start = pos as int;
    let mut events: Vec<GifEvent> = Vec::new();
    loop
        invariant_except_break
            events@ + gif_events(data@, pos as int) == gif_events(data@, start),
        invariant
            len == data@.len(),
            pos <= len,
        ensures
            events@ == gif_events(data@, start),
        decreases len - pos,
    {
        if pos >= len {
            assert(events@ =~= events@ + gif_events(data@, pos as int));
            assert(events@ == gif_events(data@, start));
            break;
        }
        let b = data[pos];
        if b == 0x2c {
            let complete = 10 <= len - pos;
            events.push(GifEvent::ImageDescriptor(pos, complete));
            proof {
                let rest = gif_events(data@, pos + 10);
                assert(events@ + rest =~= gif_events(data@, start));
            }
            if !complete {
                proof {
                    assert(gif_events(data@, pos + 10) =~= Seq::<GifEvent>::empty());
                    assert(events@ =~= events@ + gif_events(data@, pos + 10));
                    assert(events@ == gif_events(data@, start));
                }
                break;
            }
            pos = pos + 10;
        } else if b == 0x21 {
            if len - pos < 2 {
                assert(events@ =~= events@ + gif_events(data@, pos as int));
                assert(events@ == gif_events(data@, start));
                break;
            }
            let label = data[pos + 1];
            if label == 0xf9 {
                let complete = 8 <= len - pos;
                events.push(GifEvent::GraphicControl(pos, complete));
                proof {
                    let rest = gif_events(data@, pos + 8);
                    assert(events@ + rest =~= gif_events(data@, start));
                }
                if !complete {
                    proof {
                        assert(gif_events(data@, pos + 8) =~= Seq::<GifEvent>::empty());
                        assert(events@ =~= events@ + gif_events(data@, pos + 8));
                        assert(events@ == gif_events(data@, start));
                    }
                    break;
                }
                pos = pos + 8;
            } else if label == 0xfe {
                let ghost before = events@;
                events.push(GifEvent::CommentExtension(pos));
                proof {
                    lemma_comment_walk_advances(data@, pos + 2);
                }
                let next = walk_comment(data, pos + 2, &mut events);
                proof {
                    let c = comment_walk(data@, pos + 2);
                    assert(gif_events(data@, pos as int) == seq![GifEvent::CommentExtension(pos)]
                        + c.0 + gif_events(data@, c.1));
                    assert(events@ + gif_events(data@, c.1) =~= before + gif_events(
                        data@,
                        pos as int,
                    ));
                }
                match next {
                    Some(n) => {
                        pos = n;
                    },
                    None => {
                        proof {
                            let c = comment_walk(data@, pos + 2);
                            assert(gif_events(data@, c.1) =~= Seq::<GifEvent>::empty());
                            assert(events@ =~= events@ + gif_events(data@, c.1));
                            assert(events@ == gif_events(data@, start));
                        }
                        break;
                    },
                }
            } else {
                events.push(GifEvent::UnknownExtension(pos, label));
                proof {
                    let rest = gif_events(data@, pos + 2);
                    assert(events@ + rest =~= gif_events(data@, start));
                }
                pos = pos + 2;
            }
        } else if b == 0x3b {
            events.push(GifEvent::Trailer(pos));
            proof {
                assert(events@ =~= gif_events(data@, start));
            }
            break;
        } else {
            pos = pos + 1;
        }
    }
    Some(
        GifLayout {
            width: get_word_le(data, 6),
            height: get_word_le(data, 8),
            flags,
            has_global_table,
            color_resolution: (flags / 16) % 8 + 1,
            sorted: (flags / 8) % 2 == 1,
            global_table_size,
            global_colors,
            events,
        },
    )
}

} // verus!
