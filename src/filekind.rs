use vstd::prelude::*;

verus! {

/// Image container formats recognised by their first bytes.
#[derive(Clone, Copy, Debug, PartialEq, Eq, Structural)]
pub enum FileKind {
    Bmp,
    Png,
    Gif,
    Jpeg,
    Unknown,
}

/// The format that the leading magic bytes of `data` name: `BM`, `\x89PNG`, `GIF` (in a
/// file of at least 6 bytes) or `0xFF 0xD8`, tried in that order.
pub open spec fn kind_of(data: Seq<u8>) -> FileKind {
    if data.len() >= 2 && data[0] == 0x42 && data[1] == 0x4d {
        FileKind::Bmp
    } else if data.len() >= 4 && data[0] == 0x89 && data[1] == 0x50 && data[2] == 0x4e && data[3]
        == 0x47 {
        FileKind::Png
    } else if data.len() >= 6 && data[0] == 0x47 && data[1] == 0x49 && data[2] == 0x46 {
        FileKind::Gif
    } else if data.len() >= 2 && data[0] == 0xff && data[1] == 0xd8 {
        FileKind::Jpeg
    } else {
        FileKind::Unknown
    }
}

pub fn detect_format(data: &[u8]) -> (k: FileKind)
    ensures
        k == kind_of(data@),
{
    let len = data.len();
    if len >= 2 && data[0] == 0x42 && data[1] == 0x4d {
        FileKind::Bmp
    } else if len >= 4 && data[0] == 0x89 && data[1] == 0x50 && data[2] == 0x4e && data[3]
        == 0x47 {
        FileKind::Png
    } else if len >= 6 && data[0] == 0x47 && data[1] == 0x49 && data[2] == 0x46 {
        FileKind::Gif
    } else if len >= 2 && data[0] == 0xff && data[1] == 0xd8 {
        FileKind::Jpeg
    } else {
        FileKind::Unknown
    }
}

} // verus!
