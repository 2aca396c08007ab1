use vstd::prelude::*;

use crate::preview::{all_ascii, ascii_to_string, mid_gap};

verus! {

/// Upper-case hex digit of a nibble.
pub open spec fn hex_upper(n: int) -> u8 {
    if n < 10 {
        (48 + n) as u8
    } else {
        (55 + n) as u8
    }
}

/// Graphic ASCII: printed as is in the dump.
pub open spec fn is_graphic(b: u8) -> bool {
    0x21 <= b <= 0x7e
}

/// Byte `i + j` belongs to the dump that ends at `to`.
pub open spec fn in_dump(data: Seq<u8>, i: int, j: int, to: int) -> bool {
    i + j <= to && i + j < data.len()
}

/// Hex text of the first `j` positions of the row starting at `i`: two digits and a
/// space per byte, one more space after the eighth.
pub open spec fn dump_hex_row(data: Seq<u8>, i: int, to: int, j: int) -> Seq<u8>
    decreases j,
{
    if j <= 0 {
        Seq::empty()
    } else if in_dump(data, i, j - 1, to) {
        let b = data[i + j - 1];
        dump_hex_row(data, i, to, j - 1) + seq![hex_upper(b as int / 16), hex_upper(b as int % 16), 0x20u8]
            + mid_gap(j - 1)
    } else {
        dump_hex_row(data, i, to, j - 1)
    }
}

/// Character text of the first `j` positions of the row starting at `i`.
pub open spec fn dump_ascii_row(data: Seq<u8>, i: int, to: int, j: int) -> Seq<u8>
    decreases j,
{
    if j <= 0 {
        Seq::empty()
    } else if in_dump(data, i, j - 1, to) {
        let b = data[i + j - 1];
        dump_ascii_row(data, i, to, j - 1) + seq![if is_graphic(b) { b } else { 0x2eu8 }]
            + mid_gap(j - 1)
    } else {
        dump_ascii_row(data, i, to, j - 1)
    }
}

pub open spec fn as_text(bytes: Seq<u8>) -> Seq<char> {
    bytes.map_values(|b: u8| b as char)
}

/// Number of 16-byte rows from `from` to `last`.
pub open spec fn dump_rows(from: int, last: int) -> int {
    if last < from {
        0
    } else {
        (last - from) / 16 + 1
    }
}

/// The first `r` hex rows (`hex`) or character rows (`!hex`) of the dump.
pub open spec fn dump_lines(data: Seq<u8>, from: int, to: int, hex: bool, r: int) -> Seq<Seq<char>>
    decreases r,
{
    if r <= 0 {
        Seq::empty()
    } else {
        let i = from + 16 * (r - 1);
        dump_lines(data, from, to, hex, r - 1) + seq![
            as_text(
                if hex {
                    dump_hex_row(data, i, to, 16)
                } else {
                    dump_ascii_row(data, i, to, 16)
                },
            ),
        ]
    }
}

/// The lines of a dump of bytes `from` to `to` (cut at the end of `data`): nothing when
/// `from` lies past the end; otherwise a heading, the hex rows, a heading, the character
/// rows.
pub open spec fn hex_dump_lines(data: Seq<u8>, from: int, to: int) -> Seq<Seq<char>> {
    if from >= data.len() {
        Seq::empty()
    } else {
        let last = if to < data.len() - 1 {
            to
        } else {
            data.len() - 1
        };
        let rows = dump_rows(from, last);
        seq!["十六进制:"@] + dump_lines(data, from, to, true, rows) + seq!["ASCII:"@]
            + dump_lines(data, from, to, false, rows)
    }
}

pub open spec fn texts(lines: Seq<String>) -> Seq<Seq<char>> {
    lines.map_values(|s: String| s@)
}

fn upper_nibble(n: u8) -> (d: u8)
    requires
        n < 16,
    ensures
        d == hex_upper(n as int),
        d < 128,
{
    if n < 10 {
        48 + n
    } else {
        55 + n
    }
}

/// One row of the dump starting at byte `i`.
fn dump_row(data: &[u8], i: usize, to: usize, hex: bool) -> (line: String)
    requires
        i < data@.len(),
    ensures
        line@ == as_text(
            if hex {
                dump_hex_row(data@, i as int, to as int, 16)
            } else {
                dump_ascii_row(data@, i as int, to as int, 16)
            },
        ),
{
    let len = data.len();
    let mut out: Vec<u8> = Vec::new();
    let mut j: usize = 0;
    while j < 16
        invariant
            j <= 16,
            len == data@.len(),
            i < len,
            all_ascii(out@),
            out@ == if hex {
                dump_hex_row(data@, i as int, to as int, j as int)
            } else {
                dump_ascii_row(data@, i as int, to as int, j as int)
            },
        decreases 16 - j,
    {
        if j <= len - 1 - i && (i + j <= to) {
            let b = data[i + j];
            if hex {
                out.push(upper_nibble(b / 16));
                out.push(upper_nibble(b % 16));
                out.push(0x20u8);
            } else if 0x21u8 <= b && b <= 0x7eu8 {
                out.push(b);
            } else {
                out.push(0x2eu8);
            }
            if j == 7 {
                out.push(0x20u8);
            }
        }
        proof {
            let next = if hex {
                dump_hex_row(data@, i as int, to as int, j as int + 1)
            } else {
                dump_ascii_row(data@, i as int, to as int, j as int + 1)
            };
            assert(out@ =~= next);
        }
        j = j + 1;
    }
    ascii_to_string(out)
}

fn push_rows(data: &[u8], from: usize, to: usize, last: usize, hex: bool, report: &mut Vec<String>)
    requires
        from <= last < data@.len(),
    ensures
        texts(final(report)@) == texts(old(report)@) + dump_lines(
            data@,
            from as int,
            to as int,
            hex,
            dump_rows(from as int, last as int),
        ),
{
    let ghost base = texts(report@);
    let rows: usize = (last - from) / 16 + 1;
    let mut r: usize = 0;
    while r < rows
        invariant
            from <= last < data@.len(),
            rows == dump_rows(from as int, last as int),
            r <= rows,
            texts(report@) == base + dump_lines(data@, from as int, to as int, hex, r as int),
        decreases rows - r,
    {
        assert(16 * r <= last - from) by (nonlinear_arith)
            requires
                r < rows,
                rows == (last - from) / 16 + 1,
                from <= last,
        ;
        let line = dump_row(data, from + 16 * r, to, hex);
        let ghost before = report@;
        report.push(line);
        proof {
            assert(texts(report@) =~= texts(before) + seq![line@]);
        }
        r = r + 1;
    }
}

/// Appends a hex and character listing of bytes `from` to `to` of `data` to `report`.
pub fn hex_dump(data: &[u8], from: usize, to: usize, report: &mut Vec<String>)
    ensures
        texts(final(report)@) == texts(old(report)@) + hex_dump_lines(data@, from as int, to as int),
{
    let len = data.len();
    if from >= len {
        assert(texts(report@) =~= texts(report@) + hex_dump_lines(data@, from as int, to as int));
        return;
    }
    let last: usize = if to < len - 1 {
        to
    } else {
        len - 1
    };
    let ghost base = texts(report@);
    let heading = String::from_str("十六进制:");
    report.push(heading);
    let ghost after_heading = report@;
    assert(texts(after_heading) =~= base + seq!["十六进制:"@]);
    if from <= last {
        push_rows(data, from, to, last, true, report);
    } else {
        assert(texts(report@) =~= texts(report@) + dump_lines(data@, from as int, to as int, true, 0));
    }
    let ghost after_hex = report@;
    let ascii_heading = String::from_str("ASCII:");
    report.push(ascii_heading);
    assert(texts(report@) =~= texts(after_hex) + seq!["ASCII:"@]);
    if from <= last {
        push_rows(data, from, to, last, false, report);
    } else {
        assert(texts(report@) =~= texts(report@) + dump_lines(data@, from as int, to as int, false, 0));
    }
    assert(texts(report@) =~= base + hex_dump_lines(data@, from as int, to as int));
}

} // verus!
