use vstd::prelude::*;

use crate::grid::{Pixel, PixelGrid};
use crate::pack::{pack_bits, BitPacker};

verus! {

/// Order in which pixels are visited.
#[derive(Clone, Copy, Debug, PartialEq, Eq, Structural)]
pub enum ExtractDirection {
    Row,
    Column,
}

/// End of each channel byte that its scan starts from.
#[derive(Clone, Copy, Debug, PartialEq, Eq, Structural)]
pub enum BitOrder {
    MSBFirst,
    LSBFirst,
}

/// Order in which the three colour channels follow the alpha channel.
#[derive(Clone, Copy, Debug, PartialEq, Eq, Structural)]
#[allow(non_camel_case_types, clippy::upper_case_acronyms)]
pub enum RgbOrder {
    RGB,
    RBG,
    GRB,
    GBR,
    BRG,
    BGR,
}

/// Which bits of one channel are selected; index 0 is the channel's bit 7.
pub struct ChannelSelection {
    pub name: &'static str,
    pub bits: [bool; 8],
}

impl ChannelSelection {
    /// A channel with no bit selected.
    pub fn new(name: &'static str) -> (c: ChannelSelection)
        ensures
            c.name == name,
            forall|i: int| 0 <= i < 8 ==> !c.bits@[i],
    {
        ChannelSelection { name, bits: [false; 8] }
    }
}

/// Bit `pos` (0 = least significant) of `w`.
pub open spec fn has_bit(w: u32, pos: int) -> bool {
    w & (1u32 << (pos as u32)) != 0u32
}

/// `R<<24 | G<<16 | B<<8 | A`.
pub open spec fn rgba_word(p: Pixel) -> u32 {
    ((p.r as u32) << 24u32) | ((p.g as u32) << 16u32) | ((p.b as u32) << 8u32) | (p.a as u32)
}

/// Flat selection index `f` (channel `f / 8`, bit index `f % 8`) is selected.
pub open spec fn flat_selected(sel: Seq<ChannelSelection>, f: int) -> bool {
    0 <= f / 8 < sel.len() && sel[f / 8].bits@[f % 8]
}

/// The mask of the first `k` flat selection indices: index `f` stands for bit `31 - f`.
pub open spec fn mask_upto(sel: Seq<ChannelSelection>, k: int) -> u32
    decreases k,
{
    if k <= 0 {
        0u32
    } else if flat_selected(sel, k - 1) {
        mask_upto(sel, k - 1) | (1u32 << ((31 - (k - 1)) as u32))
    } else {
        mask_upto(sel, k - 1)
    }
}

/// How many of the first `k` flat selection indices are selected.
pub open spec fn count_upto(sel: Seq<ChannelSelection>, k: int) -> nat
    decreases k,
{
    if k <= 0 {
        0
    } else {
        count_upto(sel, k - 1) + if flat_selected(sel, k - 1) {
            1nat
        } else {
            0nat
        }
    }
}

/// The 32-bit selection mask: Red, Green, Blue, Alpha at bits 31..24, 23..16, 15..8, 7..0.
pub open spec fn selection_mask(sel: Seq<ChannelSelection>) -> u32 {
    mask_upto(sel, 8 * sel.len() as int)
}

/// Number of selected bits.
pub open spec fn selection_count(sel: Seq<ChannelSelection>) -> nat {
    count_upto(sel, 8 * sel.len() as int)
}

/// Numeric code of a channel order, 1 (RGB) to 6 (BGR).
pub open spec fn order_code(o: RgbOrder) -> u8 {
    match o {
        RgbOrder::RGB => 1,
        RgbOrder::RBG => 2,
        RgbOrder::GRB => 3,
        RgbOrder::GBR => 4,
        RgbOrder::BRG => 5,
        RgbOrder::BGR => 6,
    }
}

/// Bit position a group's scan starts from: group 0 is alpha, groups 1 to 3 the colour
/// channels in the order given by `code`.
pub open spec fn group_start(lsb: bool, code: u8, g: int) -> int {
    let (r, gr, b) = if lsb {
        (8int, 16int, 24int)
    } else {
        (31int, 23int, 15int)
    };
    if g == 0 {
        if lsb {
            0
        } else {
            7
        }
    } else {
        let (s1, s2, s3) = if code == 1 {
            (r, gr, b)
        } else if code == 2 {
            (r, b, gr)
        } else if code == 3 {
            (gr, r, b)
        } else if code == 4 {
            (gr, b, r)
        } else if code == 5 {
            (b, r, gr)
        } else {
            (b, gr, r)
        };
        if g == 1 {
            s1
        } else if g == 2 {
            s2
        } else {
            s3
        }
    }
}

/// Position of step `i` of a scan: upward from `start` in LSB-first order, downward otherwise.
pub open spec fn scan_pos(start: int, lsb: bool, i: int) -> int {
    if lsb {
        start + i
    } else {
        start - i
    }
}

/// Bits emitted by the first `k` steps of a scan from `start`: one bit of `w` for each
/// position whose mask bit is set.
pub open spec fn group_bits(w: u32, mask: u32, start: int, lsb: bool, k: int) -> Seq<bool>
    decreases k,
{
    if k <= 0 {
        Seq::empty()
    } else {
        let pos = scan_pos(start, lsb, k - 1);
        group_bits(w, mask, start, lsb, k - 1) + if has_bit(mask, pos) {
            seq![has_bit(w, pos)]
        } else {
            Seq::<bool>::empty()
        }
    }
}

/// Bits emitted for one pixel word: alpha first, then the colour channels in order.
pub open spec fn pixel_bits(w: u32, mask: u32, lsb: bool, code: u8) -> Seq<bool> {
    group_bits(w, mask, group_start(lsb, code, 0), lsb, 8) + group_bits(
        w,
        mask,
        group_start(lsb, code, 1),
        lsb,
        8,
    ) + group_bits(w, mask, group_start(lsb, code, 2), lsb, 8) + group_bits(
        w,
        mask,
        group_start(lsb, code, 3),
        lsb,
        8,
    )
}

/// The `k`-th pixel visited: row-major order, or column-major (x outer, y inner).
pub open spec fn visit(img: PixelGrid, row_first: bool, k: int) -> Pixel {
    if row_first {
        img.pixels@[k]
    } else {
        img.at(k / (img.height as int), k % (img.height as int))
    }
}

/// The bitstream of the first `n` pixels visited.
pub open spec fn bit_stream(
    img: PixelGrid,
    mask: u32,
    row_first: bool,
    lsb: bool,
    code: u8,
    n: int,
) -> Seq<bool>
    decreases n,
{
    if n <= 0 {
        Seq::empty()
    } else {
        bit_stream(img, mask, row_first, lsb, code, n - 1) + pixel_bits(
            rgba_word(visit(img, row_first, n - 1)),
            mask,
            lsb,
            code,
        )
    }
}

/// Output length: `ceil(pixels * maskbits / 8)` bytes.
pub open spec fn extraction_len(pixels: int, maskbits: int) -> int {
    (pixels * maskbits + 7) / 8
}

/// The extracted bytes of `img` under a mask selecting `maskbits` bits.
pub open spec fn extraction(
    img: PixelGrid,
    mask: u32,
    maskbits: nat,
    row_first: bool,
    lsb: bool,
    code: u8,
) -> Seq<u8> {
    let n = img.pixels@.len() as int;
    pack_bits(
        bit_stream(img, mask, row_first, lsb, code, n),
        extraction_len(n, maskbits as int) as nat,
    )
}

pub proof fn lemma_group_bits_len(w: u32, mask: u32, start: int, lsb: bool, k: int)
    requires
        k >= 0,
    ensures
        group_bits(w, mask, start, lsb, k).len() <= k,
    decreases k,
{
    if k > 0 {
        lemma_group_bits_len(w, mask, start, lsb, k - 1);
    }
}

pub proof fn lemma_bit_stream_len(
    img: PixelGrid,
    mask: u32,
    row_first: bool,
    lsb: bool,
    code: u8,
    n: int,
)
    requires
        n >= 0,
    ensures
        bit_stream(img, mask, row_first, lsb, code, n).len() <= 32 * n,
    decreases n,
{
    if n > 0 {
        lemma_bit_stream_len(img, mask, row_first, lsb, code, n - 1);
        let w = rgba_word(visit(img, row_first, n - 1));
        lemma_group_bits_len(w, mask, group_start(lsb, code, 0), lsb, 8);
        lemma_group_bits_len(w, mask, group_start(lsb, code, 1), lsb, 8);
        lemma_group_bits_len(w, mask, group_start(lsb, code, 2), lsb, 8);
        lemma_group_bits_len(w, mask, group_start(lsb, code, 3), lsb, 8);
    }
}

pub proof fn lemma_count_upto_bound(sel: Seq<ChannelSelection>, k: int)
    requires
        k >= 0,
    ensures
        count_upto(sel, k) <= k,
    decreases k,
{
    if k > 0 {
        lemma_count_upto_bound(sel, k - 1);
    }
}

/// Step `k` of a column-major walk over a `w` x `h` grid is position (k / h, k % h).
pub proof fn lemma_column_index(w: int, h: int, k: int)
    requires
        0 <= k < w * h,
        w >= 0,
        h >= 0,
    ensures
        h > 0,
        0 <= k / h < w,
        0 <= k % h < h,
        0 <= (k % h) * w + k / h < w * h,
{
    assert(h > 0) by (nonlinear_arith)
        requires
            0 <= k < w * h,
            w >= 0,
            h >= 0,
    ;
    let x = k / h;
    let y = k % h;
    assert(k == x * h + y && 0 <= y < h) by (nonlinear_arith)
        requires
            h > 0,
            x == k / h,
            y == k % h,
    ;
    assert(0 <= x < w) by (nonlinear_arith)
        requires
            k == x * h + y,
            0 <= y < h,
            0 <= k < w * h,
            h > 0,
    ;
    assert(0 <= y * w + x < w * h) by (nonlinear_arith)
        requires
            0 <= x < w,
            0 <= y < h,
    ;
}

/// Two extractions of the same image with the same settings give the same bytes.
pub proof fn lemma_extract_deterministic(
    d1: ExtractDialog,
    d2: ExtractDialog,
    img: PixelGrid,
    out1: Seq<u8>,
    out2: Seq<u8>,
)
    requires
        d1.channel_selections@ == d2.channel_selections@,
        d1.extract_direction == d2.extract_direction,
        d1.bit_order == d2.bit_order,
        d1.rgb_order == d2.rgb_order,
        out1 == d1.extraction_of(img),
        out2 == d2.extraction_of(img),
    ensures
        out1 == out2,
{
}

/// Number of positions in `lo..hi` whose bit is set in `mask`.
pub open spec fn bits_in(mask: u32, lo: int, hi: int) -> nat
    decreases hi - lo,
{
    if hi <= lo {
        0
    } else {
        bits_in(mask, lo, hi - 1) + if has_bit(mask, hi - 1) {
            1nat
        } else {
            0nat
        }
    }
}

proof fn lemma_bits_in_bottom(mask: u32, lo: int, hi: int)
    requires
        lo < hi,
    ensures
        bits_in(mask, lo, hi) == bits_in(mask, lo + 1, hi) + if has_bit(mask, lo) {
            1nat
        } else {
            0nat
        },
    decreases hi - lo,
{
    if hi - 1 > lo {
        lemma_bits_in_bottom(mask, lo, hi - 1);
    } else {
        assert(bits_in(mask, lo, lo) == 0);
        assert(bits_in(mask, lo + 1, hi) == 0);
    }
}

proof fn lemma_bits_in_split(mask: u32, a: int, b: int, c: int)
    requires
        a <= b <= c,
    ensures
        bits_in(mask, a, c) == bits_in(mask, a, b) + bits_in(mask, b, c),
    decreases c - b,
{
    if c > b {
        lemma_bits_in_split(mask, a, b, c - 1);
    }
}

proof fn lemma_group_bits_count(w: u32, mask: u32, start: int, lsb: bool, k: int)
    requires
        0 <= k <= 8,
    ensures
        group_bits(w, mask, start, lsb, k).len() == if lsb {
            bits_in(mask, start, start + k)
        } else {
            bits_in(mask, start - k + 1, start + 1)
        },
    decreases k,
{
    if k > 0 {
        lemma_group_bits_count(w, mask, start, lsb, k - 1);
        if !lsb {
            lemma_bits_in_bottom(mask, start - k + 1, start + 1);
        }
    }
}

/// Each pixel emits one bit for every bit set in the mask.
pub proof fn lemma_pixel_bits_count(w: u32, mask: u32, lsb: bool, code: u8)
    ensures
        pixel_bits(w, mask, lsb, code).len() == bits_in(mask, 0, 32),
{
    lemma_group_bits_count(w, mask, group_start(lsb, code, 0), lsb, 8);
    lemma_group_bits_count(w, mask, group_start(lsb, code, 1), lsb, 8);
    lemma_group_bits_count(w, mask, group_start(lsb, code, 2), lsb, 8);
    lemma_group_bits_count(w, mask, group_start(lsb, code, 3), lsb, 8);
    lemma_bits_in_split(mask, 0, 8, 16);
    lemma_bits_in_split(mask, 0, 16, 24);
    lemma_bits_in_split(mask, 0, 24, 32);
}

proof fn lemma_or_bit(m: u32, s: u32, p: u32)
    requires
        s < 32,
        p < 32,
    ensures
        ((m | (1u32 << s)) & (1u32 << p) != 0u32) == ((m & (1u32 << p) != 0u32) || p == s),
        0u32 & (1u32 << p) == 0u32,
{
    assert(((m | (1u32 << s)) & (1u32 << p) != 0u32) == ((m & (1u32 << p) != 0u32) || p == s))
        by (bit_vector)
        requires
            s < 32,
            p < 32,
    ;
    assert(0u32 & (1u32 << p) == 0u32) by (bit_vector);
}

/// Bit `p` of the mask of the first `k` flat indices is set exactly when index `31 - p` is
/// among them and selected.
proof fn lemma_mask_upto_bit(sel: Seq<ChannelSelection>, k: int, p: int)
    requires
        0 <= k <= 32,
        0 <= p < 32,
    ensures
        has_bit(mask_upto(sel, k), p) == (31 - p < k && flat_selected(sel, 31 - p)),
    decreases k,
{
    if k == 0 {
        lemma_or_bit(0u32, 0u32, p as u32);
    } else {
        lemma_mask_upto_bit(sel, k - 1, p);
        lemma_or_bit(mask_upto(sel, k - 1), (31 - (k - 1)) as u32, p as u32);
    }
}

/// Mask bit `p` is set exactly when channel bit `31 - p` (channel `(31 - p) / 8`, bit
/// index `(31 - p) % 8`) is selected.
pub proof fn lemma_selection_mask_bit(sel: Seq<ChannelSelection>, p: int)
    requires
        sel.len() <= 4,
        0 <= p < 32,
    ensures
        has_bit(selection_mask(sel), p) == flat_selected(sel, 31 - p),
{
    lemma_mask_upto_bit(sel, 8 * sel.len() as int, p);
}

proof fn lemma_count_upto_past(sel: Seq<ChannelSelection>, k: int)
    requires
        8 * sel.len() <= k,
    ensures
        count_upto(sel, k) == count_upto(sel, 8 * sel.len() as int),
    decreases k - 8 * sel.len(),
{
    if k > 8 * sel.len() {
        lemma_count_upto_past(sel, k - 1);
    }
}

proof fn lemma_top_bits(sel: Seq<ChannelSelection>, j: int)
    requires
        sel.len() <= 4,
        0 <= j <= 32,
    ensures
        bits_in(selection_mask(sel), 32 - j, 32) == count_upto(sel, j),
    decreases j,
{
    if j > 0 {
        lemma_top_bits(sel, j - 1);
        lemma_bits_in_bottom(selection_mask(sel), 32 - j, 32);
        lemma_mask_upto_bit(sel, 8 * sel.len() as int, 32 - j);
    }
}

/// The selection mask has one set bit for every selected channel bit.
pub proof fn lemma_mask_count(sel: Seq<ChannelSelection>)
    requires
        sel.len() <= 4,
    ensures
        bits_in(selection_mask(sel), 0, 32) == selection_count(sel),
{
    lemma_top_bits(sel, 32);
    lemma_count_upto_past(sel, 32);
}

/// Every pixel visited contributes exactly `maskbits` bits, so the bitstream of an image
/// fills `pixels * maskbits` bits and the output buffer holds every one of them.
pub proof fn lemma_stream_fills_output(
    sel: Seq<ChannelSelection>,
    img: PixelGrid,
    row_first: bool,
    lsb: bool,
    code: u8,
    n: int,
)
    requires
        sel.len() <= 4,
        n >= 0,
    ensures
        bit_stream(img, selection_mask(sel), row_first, lsb, code, n).len() == n
            * selection_count(sel),
        bit_stream(img, selection_mask(sel), row_first, lsb, code, n).len() <= 8
            * extraction_len(n, selection_count(sel) as int),
    decreases n,
{
    let mask = selection_mask(sel);
    if n > 0 {
        lemma_stream_fills_output(sel, img, row_first, lsb, code, n - 1);
        let w = rgba_word(visit(img, row_first, n - 1));
        lemma_pixel_bits_count(w, mask, lsb, code);
        lemma_mask_count(sel);
        assert(bit_stream(img, mask, row_first, lsb, code, n).len() == bit_stream(
            img,
            mask,
            row_first,
            lsb,
            code,
            n - 1,
        ).len() + pixel_bits(w, mask, lsb, code).len());
        assert((n - 1) * selection_count(sel) + selection_count(sel) == n * selection_count(sel))
            by (nonlinear_arith);
    } else {
        assert(n * selection_count(sel) == 0) by (nonlinear_arith)
            requires
                n == 0,
        ;
    }
    let t = n * selection_count(sel);
    assert(t <= 8 * ((t + 7) / 8)) by (nonlinear_arith)
        requires
            t >= 0,
    ;
}

/// Bit position that group `g` of a pixel starts from.
fn group_start_of(lsb: bool, code: u8, g: u32) -> (s: u32)
    requires
        g < 4,
    ensures
        s == group_start(lsb, code, g as int),
        lsb ==> s <= 24,
        !lsb ==> 7 <= s < 32,
{
    let (r, gr, b): (u32, u32, u32) = if lsb {
        (8, 16, 24)
    } else {
        (31, 23, 15)
    };
    if g == 0 {
        if lsb {
            0
        } else {
            7
        }
    } else {
        let (s1, s2, s3) = if code == 1 {
            (r, gr, b)
        } else if code == 2 {
            (r, b, gr)
        } else if code == 3 {
            (gr, r, b)
        } else if code == 4 {
            (gr, b, r)
        } else if code == 5 {
            (b, r, gr)
        } else {
            (b, gr, r)
        };
        if g == 1 {
            s1
        } else if g == 2 {
            s2
        } else {
            s3
        }
    }
}

/// The extraction settings, the last extracted bytes and their text preview.
pub struct ExtractDialog {
    /// Whether the dialog is still shown.
    pub open: bool,
    /// Bit selections of the Red, Green, Blue and Alpha channels, in that order.
    pub channel_selections: Vec<ChannelSelection>,
    pub extract_direction: ExtractDirection,
    pub bit_order: BitOrder,
    pub rgb_order: RgbOrder,
    /// Whether the preview starts each row with its hex dump.
    pub preview_hex_dump: bool,
    pub preview_text: String,
    pub extract_data: Vec<u8>,
}

impl Default for ExtractDialog {
    /// Red, Green, Blue and Alpha with nothing selected; row-major, MSB first, RGB order,
    /// hex dump on, no data yet.
    fn default() -> (d: Self)
        ensures
            d.open,
            d.channel_selections@.len() == 4,
            d.channel_selections@[0].name == "Red",
            d.channel_selections@[1].name == "Green",
            d.channel_selections@[2].name == "Blue",
            d.channel_selections@[3].name == "Alpha",
            forall|c: int, i: int|
                0 <= c < 4 && 0 <= i < 8 ==> !d.channel_selections@[c].bits@[i],
            d.extract_direction == ExtractDirection::Row,
            d.bit_order == BitOrder::MSBFirst,
            d.rgb_order == RgbOrder::RGB,
            d.preview_hex_dump,
            d.preview_text@ == Seq::<char>::empty(),
            d.extract_data@ == Seq::<u8>::empty(),
    {
        ExtractDialog {
            open: true,
            channel_selections: vec![
                ChannelSelection::new("Red"),
                ChannelSelection::new("Green"),
                ChannelSelection::new("Blue"),
                ChannelSelection::new("Alpha"),
            ],
            extract_direction: ExtractDirection::Row,
            bit_order: BitOrder::MSBFirst,
            rgb_order: RgbOrder::RGB,
            preview_hex_dump: true,
            preview_text: String::new(),
            extract_data: Vec::new(),
        }
    }
}

impl ExtractDialog {
    /// The selection, as a sequence of channel selections.
    pub open spec fn selections(&self) -> Seq<ChannelSelection> {
        self.channel_selections@
    }

    /// What `extract_data` holds after an extraction of `img` with the current settings.
    pub open spec fn extraction_of(&self, img: PixelGrid) -> Seq<u8> {
        extraction(
            img,
            selection_mask(self.selections()),
            selection_count(self.selections()),
            self.extract_direction == ExtractDirection::Row,
            self.bit_order == BitOrder::LSBFirst,
            order_code(self.rgb_order),
        )
    }

    /// The selection mask and the number of selected bits.
    fn get_mask(&self) -> (r: (u32, u32))
        requires
            self.selections().len() <= 4,
        ensures
            r.0 == selection_mask(self.selections()),
            r.1 == selection_count(self.selections()),
    {
        let ghost sel = self.selections();
        let mut mask: u32 = 0;
        let mut maskbits: u32 = 0;
        let n = self.channel_selections.len();
        let mut ci: usize = 0;
        while ci < n
            invariant
                n == sel.len(),
                sel == self.selections(),
                n <= 4,
                ci <= n,
                mask == mask_upto(sel, 8 * ci as int),
                maskbits == count_upto(sel, 8 * ci as int),
                maskbits <= 8 * ci,
            decreases n - ci,
        {
            let mut bi: usize = 0;
            while bi < 8
                invariant
                    n == sel.len(),
                    sel == self.selections(),
                    n <= 4,
                    ci < n,
                    bi <= 8,
                    mask == mask_upto(sel, 8 * ci as int + bi as int),
                    maskbits == count_upto(sel, 8 * ci as int + bi as int),
                    maskbits <= 8 * ci + bi,
                decreases 8 - bi,
            {
                let flat_index: usize = ci * 8 + bi;
                proof {
                    assert(flat_index as int / 8 == ci as int);
                    assert(flat_index as int % 8 == bi as int);
                }
                if self.channel_selections[ci].bits[bi] {
                    let shift: u32 = (31 - flat_index) as u32;
                    mask = mask | (1u32 << shift);
                    maskbits = maskbits + 1;
                }
                bi = bi + 1;
            }
            ci = ci + 1;
        }
        (mask, maskbits)
    }

    /// The selected bits of every pixel of `image`, packed into bytes.
    pub fn extract(&self, image: &PixelGrid) -> (out: Vec<u8>)
        requires
            self.selections().len() <= 4,
            image.wf(),
            image.pixels@.len() * 32 + 32 < usize::MAX,
        ensures
            out@ == self.extraction_of(*image),
            out@.len() == extraction_len(
                image.pixels@.len() as int,
                selection_count(self.selections()) as int,
            ),
    {
        let (mask, maskbits) = self.get_mask();
        let (row_first, lsb_first, rgb_order) = self.get_bit_order_options();
        let n = image.pixels.len();
        let ghost sel = self.selections();
        proof {
            assert(maskbits <= 32) by {
                lemma_count_upto_bound(sel, 8 * sel.len() as int);
            }
            assert(n as int * maskbits as int <= n as int * 32) by (nonlinear_arith)
                requires
                    maskbits <= 32,
            ;
        }
        let total_bits: usize = n * (maskbits as usize);
        let len: usize = (total_bits + 7) / 8;
        let mut packer = BitPacker::new(len);
        let mut k: usize = 0;
        while k < n
            invariant
                k <= n,
                n == image.pixels@.len(),
                image.wf(),
                n * 32 + 32 < usize::MAX,
                packer.wf(),
                packer.data@.len() == len,
                packer.emitted@ == bit_stream(*image, mask, row_first, lsb_first, rgb_order, k as int),
            decreases n - k,
        {
            let idx: usize = if row_first {
                k
            } else {
                let h = image.height as usize;
                let w = image.width as usize;
                proof {
                    lemma_column_index(w as int, h as int, k as int);
                }
                (k % h) * w + k / h
            };
            let p = image.pixels[idx];
            proof {
                assert(p == visit(*image, row_first, k as int));
                lemma_bit_stream_len(*image, mask, row_first, lsb_first, rgb_order, k as int);
                assert(32 * k <= 32 * n);
            }
            let word: u32 = ((p.r as u32) << 24u32) | ((p.g as u32) << 16u32) | ((p.b as u32)
                << 8u32) | (p.a as u32);
            Self::extract_bits(&mut packer, word, mask, lsb_first, rgb_order);
            k = k + 1;
        }
        packer.data
    }

    /// Extracts the selected bits of `image` into `extract_data`.
    pub fn generate_extract(&mut self, image: &PixelGrid)
        requires
            old(self).selections().len() <= 4,
            image.wf(),
            image.pixels@.len() * 32 + 32 < usize::MAX,
        ensures
            final(self).extract_data@ == old(self).extraction_of(*image),
            final(self).channel_selections@ == old(self).channel_selections@,
            final(self).extract_direction == old(self).extract_direction,
            final(self).bit_order == old(self).bit_order,
            final(self).rgb_order == old(self).rgb_order,
            final(self).preview_hex_dump == old(self).preview_hex_dump,
            final(self).preview_text@ == old(self).preview_text@,
            final(self).open == old(self).open,
    {
        self.extract_data = self.extract(image);
    }

    /// The traversal, bit-order and channel-order settings as
    /// `(row_first, lsb_first, order code)`.
    fn get_bit_order_options(&self) -> (r: (bool, bool, u8))
        ensures
            r.0 == (self.extract_direction == ExtractDirection::Row),
            r.1 == (self.bit_order == BitOrder::LSBFirst),
            r.2 == order_code(self.rgb_order),
    {
        let row_first = self.extract_direction == ExtractDirection::Row;
        let lsb_first = self.bit_order == BitOrder::LSBFirst;
        let rgb_order: u8 = match self.rgb_order {
            RgbOrder::RGB => 1,
            RgbOrder::RBG => 2,
            RgbOrder::GRB => 3,
            RgbOrder::GBR => 4,
            RgbOrder::BRG => 5,
            RgbOrder::BGR => 6,
        };
        (row_first, lsb_first, rgb_order)
    }

    /// Scans the eight positions of one channel byte from `start` and emits the bit of
    /// `word` at each position that `mask` selects.
    fn extract_8bits(
        packer: &mut BitPacker,
        word: u32,
        start: u32,
        mask: u32,
        lsb_first: bool,
    )
        requires
            old(packer).wf(),
            old(packer).emitted@.len() + 8 < usize::MAX,
            lsb_first ==> start <= 24,
            !lsb_first ==> 7 <= start < 32,
        ensures
            final(packer).wf(),
            final(packer).emitted@ == old(packer).emitted@ + group_bits(
                word,
                mask,
                start as int,
                lsb_first,
                8,
            ),
            final(packer).data@.len() == old(packer).data@.len(),
    {
        let ghost start_bits = packer.emitted@;
        let mut i: u32 = 0;
        while i < 8
            invariant
                i <= 8,
                packer.wf(),
                packer.data@.len() == old(packer).data@.len(),
                start_bits == old(packer).emitted@,
                start_bits.len() + 8 < usize::MAX,
                lsb_first ==> start <= 24,
                !lsb_first ==> 7 <= start < 32,
                packer.emitted@ == start_bits + group_bits(word, mask, start as int, lsb_first, i as int),
            decreases 8 - i,
        {
            proof {
                lemma_group_bits_len(word, mask, start as int, lsb_first, i as int);
            }
            let pos: u32 = if lsb_first {
                start + i
            } else {
                start - i
            };
            if mask & (1u32 << pos) != 0u32 {
                let bit = word & (1u32 << pos) != 0u32;
                packer.add_bit(bit);
            }
            proof {
                let ghost g = group_bits(word, mask, start as int, lsb_first, i as int + 1);
                assert(packer.emitted@ =~= start_bits + g);
            }
            i = i + 1;
        }
    }

    /// Emits the selected bits of one pixel word: the alpha byte first, then the colour
    /// bytes in the order that `rgb_order` codes.
    fn extract_bits(packer: &mut BitPacker, word: u32, mask: u32, lsb_first: bool, rgb_order: u8)
        requires
            old(packer).wf(),
            old(packer).emitted@.len() + 32 < usize::MAX,
        ensures
            final(packer).wf(),
            final(packer).emitted@ == old(packer).emitted@ + pixel_bits(
                word,
                mask,
                lsb_first,
                rgb_order,
            ),
            final(packer).data@.len() == old(packer).data@.len(),
    {
        let ghost e0 = packer.emitted@;
        let ghost g0 = group_bits(word, mask, group_start(lsb_first, rgb_order, 0), lsb_first, 8);
        let ghost g1 = group_bits(word, mask, group_start(lsb_first, rgb_order, 1), lsb_first, 8);
        let ghost g2 = group_bits(word, mask, group_start(lsb_first, rgb_order, 2), lsb_first, 8);
        let ghost g3 = group_bits(word, mask, group_start(lsb_first, rgb_order, 3), lsb_first, 8);
        proof {
            lemma_group_bits_len(word, mask, group_start(lsb_first, rgb_order, 0), lsb_first, 8);
            lemma_group_bits_len(word, mask, group_start(lsb_first, rgb_order, 1), lsb_first, 8);
            lemma_group_bits_len(word, mask, group_start(lsb_first, rgb_order, 2), lsb_first, 8);
        }
        let mut g: u32 = 0;
        while g < 4
            invariant
                g <= 4,
                packer.wf(),
                packer.data@.len() == old(packer).data@.len(),
                e0 == old(packer).emitted@,
                e0.len() + 32 < usize::MAX,
                g0.len() <= 8,
                g1.len() <= 8,
                g2.len() <= 8,
                g0 == group_bits(word, mask, group_start(lsb_first, rgb_order, 0), lsb_first, 8),
                g1 == group_bits(word, mask, group_start(lsb_first, rgb_order, 1), lsb_first, 8),
                g2 == group_bits(word, mask, group_start(lsb_first, rgb_order, 2), lsb_first, 8),
                g3 == group_bits(word, mask, group_start(lsb_first, rgb_order, 3), lsb_first, 8),
                g == 0 ==> packer.emitted@ == e0,
                g == 1 ==> packer.emitted@ == e0 + g0,
                g == 2 ==> packer.emitted@ == e0 + g0 + g1,
                g == 3 ==> packer.emitted@ == e0 + g0 + g1 + g2,
                g == 4 ==> packer.emitted@ == e0 + g0 + g1 + g2 + g3,
            decreases 4 - g,
        {
            let start = group_start_of(lsb_first, rgb_order, g);
            Self::extract_8bits(packer, word, start, mask, lsb_first);
            g = g + 1;
        }
        assert(packer.emitted@ =~= e0 + (g0 + g1 + g2 + g3));
    }
}

} // verus!
