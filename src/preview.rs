use vstd::prelude::*;

use crate::extract::ExtractDialog;

verus! {

/// Bytes per preview row.
pub const ROW_LEN: usize = 16;

/// Lower-case hex digit of a nibble.
pub open spec fn hex_digit(n: int) -> u8 {
    if n < 10 {
        (48 + n) as u8
    } else {
        (87 + n) as u8
    }
}

/// Shown verbatim in the preview: printable ASCII, space included.
pub open spec fn is_shown(b: u8) -> bool {
    0x20 <= b <= 0x7e
}

/// The space that follows the eighth byte of a row.
pub open spec fn mid_gap(j: int) -> Seq<u8> {
    if j == 7 {
        seq![0x20u8]
    } else {
        Seq::empty()
    }
}

/// Hex text of the first `j` bytes of the row starting at `start`.
pub open spec fn hex_part(data: Seq<u8>, start: int, j: int) -> Seq<u8>
    decreases j,
{
    if j <= 0 {
        Seq::empty()
    } else if start + j - 1 < data.len() {
        let b = data[start + j - 1];
        hex_part(data, start, j - 1) + seq![hex_digit(b as int / 16), hex_digit(b as int % 16)] + mid_gap(j - 1)
    } else {
        hex_part(data, start, j - 1)
    }
}

/// Character text of the first `j` bytes of the row starting at `start`.
pub open spec fn ascii_part(data: Seq<u8>, start: int, j: int) -> Seq<u8>
    decreases j,
{
    if j <= 0 {
        Seq::empty()
    } else if start + j - 1 < data.len() {
        let b = data[start + j - 1];
        ascii_part(data, start, j - 1) + seq![if is_shown(b) { b } else { 0x2eu8 }] + mid_gap(
            j - 1,
        )
    } else {
        ascii_part(data, start, j - 1)
    }
}

/// One preview row: optional hex text and two spaces, the characters, a newline.
pub open spec fn preview_line(data: Seq<u8>, start: int, hex: bool) -> Seq<u8> {
    (if hex {
        hex_part(data, start, 16) + seq![0x20u8, 0x20u8]
    } else {
        Seq::empty()
    }) + ascii_part(data, start, 16) + seq![0x0au8]
}

/// The first `r` rows of the preview.
pub open spec fn preview_rows(data: Seq<u8>, hex: bool, r: int) -> Seq<u8>
    decreases r,
{
    if r <= 0 {
        Seq::empty()
    } else {
        preview_rows(data, hex, r - 1) + preview_line(data, 16 * (r - 1), hex)
    }
}

/// The whole preview of `data`, as bytes.
pub open spec fn preview_bytes(data: Seq<u8>, hex: bool) -> Seq<u8> {
    preview_rows(data, hex, (data.len() as int + 15) / 16)
}

/// The whole preview of `data`, as text.
pub open spec fn preview_of(data: Seq<u8>, hex: bool) -> Seq<char> {
    preview_bytes(data, hex).map_values(|b: u8| b as char)
}

pub open spec fn all_ascii(s: Seq<u8>) -> bool {
    forall|i: int| 0 <= i < s.len() ==> s[i] < 128
}

/// Relies on `String::from_utf8`: ASCII bytes are valid UTF-8 and decode to the
/// characters with the same codes.
#[verifier::external_body]
pub(crate) fn ascii_to_string(bytes: Vec<u8>) -> (s: String)
    requires
        all_ascii(bytes@),
    ensures
        s@ == bytes@.map_values(|b: u8| b as char),
{
    String::from_utf8(bytes).unwrap_or_default()
}

fn hex_nibble(n: u8) -> (d: u8)
    requires
        n < 16,
    ensures
        d == hex_digit(n as int),
        d < 128,
{
    if n < 10 {
        48 + n
    } else {
        87 + n
    }
}

fn push_row(out: &mut Vec<u8>, data: &Vec<u8>, start: usize, hex: bool)
    requires
        all_ascii(old(out)@),
        start < data@.len(),
    ensures
        final(out)@ == old(out)@ + preview_line(data@, start as int, hex),
        all_ascii(final(out)@),
{
    let ghost base = out@;
    let len = data.len();
    if hex {
        let mut j: usize = 0;
        while j < ROW_LEN
            invariant
                j <= 16,
                len == data@.len(),
                start < len,
                all_ascii(out@),
                out@ == base + hex_part(data@, start as int, j as int),
            decreases 16 - j,
        {
            if j < len - start {
                let b = data[start + j];
                out.push(hex_nibble(b / 16));
                out.push(hex_nibble(b % 16));
                if j == 7 {
                    out.push(0x20u8);
                }
            }
            proof {
                assert(out@ =~= base + hex_part(data@, start as int, j as int + 1));
            }
            j = j + 1;
        }
        out.push(0x20u8);
        out.push(0x20u8);
    }
    let ghost mid = out@;
    let mut j: usize = 0;
    while j < ROW_LEN
        invariant
            j <= 16,
            len == data@.len(),
            start < len,
            all_ascii(out@),
            out@ == mid + ascii_part(data@, start as int, j as int),
        decreases 16 - j,
    {
        if j < len - start {
            let b = data[start + j];
            let shown = 0x20u8 <= b && b <= 0x7eu8;
            if shown {
                out.push(b);
            } else {
                out.push(0x2eu8);
            }
            if j == 7 {
                out.push(0x20u8);
            }
        }
        proof {
            assert(out@ =~= mid + ascii_part(data@, start as int, j as int + 1));
        }
        j = j + 1;
    }
    out.push(0x0au8);
    proof {
        assert(out@ =~= base + preview_line(data@, start as int, hex));
    }
}

impl ExtractDialog {
    /// Renders `extract_data` as text into `preview_text`: rows of 16 bytes, each with an
    /// optional hex dump, then the bytes as characters (`.` for those not shown), with an
    /// extra space after the eighth byte of each part.
    pub fn generate_preview(&mut self)
        ensures
            final(self).preview_text@ == preview_of(old(self).extract_data@, old(self).preview_hex_dump),
            final(self).extract_data@ == old(self).extract_data@,
            final(self).channel_selections@ == old(self).channel_selections@,
            final(self).extract_direction == old(self).extract_direction,
            final(self).bit_order == old(self).bit_order,
            final(self).rgb_order == old(self).rgb_order,
            final(self).preview_hex_dump == old(self).preview_hex_dump,
            final(self).open == old(self).open,
    {
        let hex = self.preview_hex_dump;
        let len = self.extract_data.len();
        let mut out: Vec<u8> = Vec::new();
        let rows: usize = len / ROW_LEN + if len % ROW_LEN == 0 {
            0
        } else {
            1
        };
        assert(rows == (len as int + 15) / 16);
        let mut r: usize = 0;
        while r < rows
            invariant
                len == self.extract_data@.len(),
                rows == (len as int + 15) / 16,
                r <= rows,
                all_ascii(out@),
                out@ == preview_rows(self.extract_data@, hex, r as int),
            decreases rows - r,
        {
            assert(16 * r < len) by (nonlinear_arith)
                requires
                    r < rows,
                    rows == (len as int + 15) / 16,
            ;
            push_row(&mut out, &self.extract_data, r * ROW_LEN, hex);
            r = r + 1;
        }
        self.preview_text = ascii_to_string(out);
    }
}

} // verus!
