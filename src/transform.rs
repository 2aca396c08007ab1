use vstd::prelude::*;

use crate::grid::{Pixel, PixelGrid};

verus! {

/// Number of views in the catalog; indices run from 0 to `NUM_VIEWS - 1`.
pub const NUM_VIEWS: i32 = 42;

/// The nine random bytes that parameterize one randomized colour remap.
#[derive(Clone, Copy, Debug, PartialEq, Eq, Structural)]
pub struct ColorMapCoefficients {
    pub bm: u8,
    pub ba: u8,
    pub bx: u8,
    pub gm: u8,
    pub ga: u8,
    pub gx: u8,
    pub rm: u8,
    pub ra: u8,
    pub rx: u8,
}

pub open spec fn white() -> Pixel {
    Pixel { r: 255, g: 255, b: 255, a: 255 }
}

pub open spec fn black() -> Pixel {
    Pixel { r: 0, g: 0, b: 0, a: 255 }
}

/// The views whose output depends on a fresh random draw.
pub open spec fn is_random_view(index: int) -> bool {
    38 <= index <= 40
}

/// `A<<24 | R<<16 | G<<8 | B`.
pub open spec fn argb_word(p: Pixel) -> u32 {
    ((p.a as u32) << 24u32) | ((p.r as u32) << 16u32) | ((p.g as u32) << 8u32) | (p.b as u32)
}

/// `0xFF<<24 | R<<16 | G<<8 | B`: the word with alpha forced opaque.
pub open spec fn opaque_word(p: Pixel) -> u32 {
    0xff00_0000u32 | ((p.r as u32) << 16u32) | ((p.g as u32) << 8u32) | (p.b as u32)
}

/// White where bit `bit` of the ARGB word is set, black elsewhere.
pub open spec fn bit_plane_of(p: Pixel, bit: u32) -> Pixel {
    if (argb_word(p) >> bit) & 1u32 == 1u32 {
        white()
    } else {
        black()
    }
}

/// The masked word, moved down one byte when it does not fit in 24 bits.
pub open spec fn masked_colour(p: Pixel, mask: u32) -> u32 {
    let col = opaque_word(p) & mask;
    if col > 0xff_ffffu32 {
        col >> 8u32
    } else {
        col
    }
}

pub open spec fn mask_of(p: Pixel, mask: u32) -> Pixel {
    let col = masked_colour(p, mask);
    Pixel {
        r: ((col >> 16u32) & 0xffu32) as u8,
        g: ((col >> 8u32) & 0xffu32) as u8,
        b: (col & 0xffu32) as u8,
        a: 255,
    }
}

/// `((v * m) XOR x) + a mod 256`.
pub open spec fn remap_channel(v: u8, m: u8, x: u8, a: u8) -> u8 {
    ((((v as int * m as int) as u32 ^ (x as u32)) as int + a as int) % 256) as u8
}

pub open spec fn remap_of(p: Pixel, c: ColorMapCoefficients) -> Pixel {
    Pixel {
        r: remap_channel(p.b, c.rm, c.rx, c.ra),
        g: remap_channel(p.g, c.gm, c.gx, c.ga),
        b: remap_channel(p.r, c.bm, c.bx, c.ba),
        a: 255,
    }
}

/// The full-channel mask used by views 34 to 37.
pub open spec fn view_mask(index: int) -> u32 {
    if index == 34 {
        0xff00_0000u32
    } else if index == 35 {
        0x00ff_0000u32
    } else if index == 36 {
        0x0000_ff00u32
    } else {
        0x0000_00ffu32
    }
}

pub open spec fn inverted(p: Pixel) -> Pixel {
    Pixel { r: (255 - p.r) as u8, g: (255 - p.g) as u8, b: (255 - p.b) as u8, a: 255 }
}

/// White where the three colour components are equal, black elsewhere.
pub open spec fn gray_of(p: Pixel) -> Pixel {
    if p.r == p.g && p.r == p.b {
        white()
    } else {
        black()
    }
}

/// What view `index` makes of one source pixel, given the coefficients of a random draw.
pub open spec fn view_pixel(index: int, p: Pixel, c: ColorMapCoefficients) -> Pixel {
    if index == 1 {
        inverted(p)
    } else if 2 <= index <= 33 {
        bit_plane_of(p, (33 - index) as u32)
    } else if 34 <= index <= 37 {
        mask_of(p, view_mask(index))
    } else if is_random_view(index) {
        remap_of(p, c)
    } else if index == 41 {
        gray_of(p)
    } else {
        p
    }
}

/// The pixels of view `index` of `src`.
pub open spec fn view_pixels(src: Seq<Pixel>, index: int, c: ColorMapCoefficients) -> Seq<Pixel> {
    src.map_values(|p: Pixel| view_pixel(index, p, c))
}

/// `out` is view `index` of `src` under the coefficients `c`.
pub open spec fn is_view_of(src: PixelGrid, out: PixelGrid, index: int, c: ColorMapCoefficients) -> bool {
    &&& out.width == src.width
    &&& out.height == src.height
    &&& out.pixels@ == view_pixels(src.pixels@, index, c)
}

/// `out` is view `index` of `src` under some random draw.
pub open spec fn is_some_view_of(src: PixelGrid, out: PixelGrid, index: int) -> bool {
    exists|c: ColorMapCoefficients| is_view_of(src, out, index, c)
}

fn inversion(p: Pixel) -> (q: Pixel)
    ensures
        q == inverted(p),
{
    Pixel { r: 255 - p.r, g: 255 - p.g, b: 255 - p.b, a: 255 }
}

fn transform_bit(p: Pixel, bit: u32) -> (q: Pixel)
    requires
        bit < 32,
    ensures
        q == bit_plane_of(p, bit),
{
    let fcol: u32 = ((p.a as u32) << 24u32) | ((p.r as u32) << 16u32) | ((p.g as u32) << 8u32) | (
    p.b as u32);
    if (fcol >> bit) & 1u32 == 1u32 {
        Pixel { r: 255, g: 255, b: 255, a: 255 }
    } else {
        Pixel { r: 0, g: 0, b: 0, a: 255 }
    }
}

fn transform_mask(p: Pixel, mask: u32) -> (q: Pixel)
    ensures
        q == mask_of(p, mask),
{
    let fcol: u32 = 0xff00_0000u32 | ((p.r as u32) << 16u32) | ((p.g as u32) << 8u32) | (
    p.b as u32);
    let mut col: u32 = fcol & mask;
    if col > 0xff_ffffu32 {
        col = col >> 8u32;
    }
    Pixel {
        r: ((col >> 16u32) & 0xffu32) as u8,
        g: ((col >> 8u32) & 0xffu32) as u8,
        b: (col & 0xffu32) as u8,
        a: 255,
    }
}

fn remap(v: u8, m: u8, x: u8, a: u8) -> (r: u8)
    ensures
        r == remap_channel(v, m, x, a),
{
    assert(v as int * m as int <= 255 * 255) by (nonlinear_arith)
        requires
            v <= 255,
            m <= 255,
    ;
    let prod: u32 = (v as u32) * (m as u32);
    let xm: u32 = x as u32;
    let mixed: u32 = prod ^ xm;
    assert(prod ^ xm < 0x1_0000u32) by (bit_vector)
        requires
            prod < 0x1_0000u32,
            xm < 0x100u32,
    ;
    ((mixed + a as u32) % 256) as u8
}

fn random_colormap(p: Pixel, c: &ColorMapCoefficients) -> (q: Pixel)
    ensures
        q == remap_of(p, *c),
{
    let b = remap(p.r, c.bm, c.bx, c.ba);
    let g = remap(p.g, c.gm, c.gx, c.ga);
    let r = remap(p.b, c.rm, c.rx, c.ra);
    Pixel { r, g, b, a: 255 }
}

fn gray_bits(p: Pixel) -> (q: Pixel)
    ensures
        q == gray_of(p),
{
    if p.r == p.g && p.r == p.b {
        Pixel { r: 255, g: 255, b: 255, a: 255 }
    } else {
        Pixel { r: 0, g: 0, b: 0, a: 255 }
    }
}

/// View `index` of one pixel.
pub fn view_of_pixel(index: u32, p: Pixel, c: &ColorMapCoefficients) -> (q: Pixel)
    requires
        index < NUM_VIEWS,
    ensures
        q == view_pixel(index as int, p, *c),
{
    if index == 1 {
        inversion(p)
    } else if 2 <= index && index <= 33 {
        transform_bit(p, 33 - index)
    } else if index == 34 {
        transform_mask(p, 0xff00_0000u32)
    } else if index == 35 {
        transform_mask(p, 0x00ff_0000u32)
    } else if index == 36 {
        transform_mask(p, 0x0000_ff00u32)
    } else if index == 37 {
        transform_mask(p, 0x0000_00ffu32)
    } else if 38 <= index && index <= 40 {
        random_colormap(p, c)
    } else if index == 41 {
        gray_bits(p)
    } else {
        p
    }
}

/// View `index` of `source`, with `c` as the random draw for the randomized views.
pub fn compute_with(source: &PixelGrid, index: u32, c: &ColorMapCoefficients) -> (out: PixelGrid)
    requires
        source.wf(),
        index < NUM_VIEWS,
    ensures
        out.wf(),
        is_view_of(*source, out, index as int, *c),
{
    let n = source.pixels.len();
    let mut pixels: Vec<Pixel> = Vec::with_capacity(n);
    let mut i: usize = 0;
    while i < n
        invariant
            i <= n,
            n == source.pixels@.len(),
            index < NUM_VIEWS,
            pixels@.len() == i,
            forall|k: int| 0 <= k < i ==> pixels@[k] == view_pixel(index as int, source.pixels@[k], *c),
        decreases n - i,
    {
        let q = view_of_pixel(index, source.pixels[i], c);
        pixels.push(q);
        i = i + 1;
    }
    assert(pixels@ =~= view_pixels(source.pixels@, index as int, *c));
    PixelGrid { width: source.width, height: source.height, pixels }
}

/// Relies on `rand::random::<u8>`: a uniformly drawn byte from the thread-local generator.
#[verifier::external_body]
fn random_byte() -> (r: u8) {
    rand::random::<u8>()
}

impl ColorMapCoefficients {
    /// Nine fresh random bytes, drawn in field order.
    pub fn draw() -> (c: ColorMapCoefficients) {
        let bm = random_byte();
        let ba = random_byte();
        let bx = random_byte();
        let gm = random_byte();
        let ga = random_byte();
        let gx = random_byte();
        let rm = random_byte();
        let ra = random_byte();
        let rx = random_byte();
        ColorMapCoefficients { bm, ba, bx, gm, ga, gx, rm, ra, rx }
    }
}

/// View `index` of `source`; the randomized views draw fresh coefficients on every call.
pub fn compute(source: &PixelGrid, index: u32) -> (out: PixelGrid)
    requires
        source.wf(),
        index < NUM_VIEWS,
    ensures
        out.wf(),
        is_some_view_of(*source, out, index as int),
        !is_random_view(index as int) ==> forall|c: ColorMapCoefficients|
            is_view_of(*source, out, index as int, c),
{
    let c = if 38 <= index && index <= 40 {
        ColorMapCoefficients::draw()
    } else {
        ColorMapCoefficients { bm: 0, ba: 0, bx: 0, gm: 0, ga: 0, gx: 0, rm: 0, ra: 0, rx: 0 }
    };
    let out = compute_with(source, index, &c);
    proof {
        if !is_random_view(index as int) {
            assert forall|c2: ColorMapCoefficients| is_view_of(*source, out, index as int, c2) by {
                assert(view_pixels(source.pixels@, index as int, c2) =~= view_pixels(
                    source.pixels@,
                    index as int,
                    c,
                ));
            }
        }
    }
    out
}

/// The pixels of a non-random view do not depend on the draw.
pub proof fn lemma_view_ignores_draw(
    src: Seq<Pixel>,
    index: int,
    c1: ColorMapCoefficients,
    c2: ColorMapCoefficients,
)
    requires
        !is_random_view(index),
    ensures
        view_pixels(src, index, c1) == view_pixels(src, index, c2),
{
    assert(view_pixels(src, index, c1) =~= view_pixels(src, index, c2));
}

/// Two results of `compute` on the same source and a deterministic view index are
/// identical grids.
pub proof fn lemma_compute_deterministic(src: PixelGrid, index: int, out1: PixelGrid, out2: PixelGrid)
    requires
        0 <= index < NUM_VIEWS,
        !is_random_view(index),
        is_some_view_of(src, out1, index),
        is_some_view_of(src, out2, index),
    ensures
        out1.width == out2.width,
        out1.height == out2.height,
        out1.pixels@ == out2.pixels@,
{
    let c1 = choose|c: ColorMapCoefficients| is_view_of(src, out1, index, c);
    let c2 = choose|c: ColorMapCoefficients| is_view_of(src, out2, index, c);
    lemma_view_ignores_draw(src.pixels@, index, c1, c2);
    assert(out1.pixels@ =~= out2.pixels@);
}

/// Inverting twice gives back the red, green and blue of every source pixel.
pub proof fn lemma_inversion_twice_restores_rgb(src: PixelGrid, once: PixelGrid, twice: PixelGrid)
    requires
        is_some_view_of(src, once, 1),
        is_some_view_of(once, twice, 1),
    ensures
        twice.pixels@.len() == src.pixels@.len(),
        forall|i: int|
            0 <= i < src.pixels@.len() ==> {
                let p = #[trigger] src.pixels@[i];
                let q = twice.pixels@[i];
                q.r == p.r && q.g == p.g && q.b == p.b
            },
{
    let c1 = choose|c: ColorMapCoefficients| is_view_of(src, once, 1, c);
    let c2 = choose|c: ColorMapCoefficients| is_view_of(once, twice, 1, c);
    assert forall|i: int| 0 <= i < src.pixels@.len() implies {
        let p = #[trigger] src.pixels@[i];
        let q = twice.pixels@[i];
        q.r == p.r && q.g == p.g && q.b == p.b
    } by {
        assert(once.pixels@[i] == inverted(src.pixels@[i]));
        assert(twice.pixels@[i] == inverted(once.pixels@[i]));
    }
}

/// Number of white pixels in `s`.
pub open spec fn count_white(s: Seq<Pixel>) -> nat
    decreases s.len(),
{
    if s.len() == 0 {
        0
    } else {
        count_white(s.drop_last()) + if s.last() == white() {
            1nat
        } else {
            0nat
        }
    }
}

/// Number of pixels in `s` whose ARGB word has bit `bit` set.
pub open spec fn count_bit_set(s: Seq<Pixel>, bit: u32) -> nat
    decreases s.len(),
{
    if s.len() == 0 {
        0
    } else {
        count_bit_set(s.drop_last(), bit) + if (argb_word(s.last()) >> bit) & 1u32 == 1u32 {
            1nat
        } else {
            0nat
        }
    }
}

proof fn lemma_count_white_plane(s: Seq<Pixel>, index: int, c: ColorMapCoefficients)
    requires
        2 <= index <= 33,
    ensures
        count_white(view_pixels(s, index, c)) == count_bit_set(s, (33 - index) as u32),
    decreases s.len(),
{
    if s.len() > 0 {
        let v = view_pixels(s, index, c);
        assert(v.drop_last() =~= view_pixels(s.drop_last(), index, c));
        lemma_count_white_plane(s.drop_last(), index, c);
    }
}

/// A bit-plane view is black and white only, and it has as many white pixels as the
/// source has pixels with that bit of `A<<24 | R<<16 | G<<8 | B` set.
pub proof fn lemma_bit_plane(src: PixelGrid, out: PixelGrid, index: int)
    requires
        2 <= index <= 33,
        is_some_view_of(src, out, index),
    ensures
        forall|i: int|
            0 <= i < out.pixels@.len() ==> #[trigger] out.pixels@[i] == white() || out.pixels@[i]
                == black(),
        forall|i: int|
            0 <= i < out.pixels@.len() ==> (#[trigger] out.pixels@[i] == white() <==> (argb_word(
                src.pixels@[i],
            ) >> ((33 - index) as u32)) & 1u32 == 1u32),
        count_white(out.pixels@) == count_bit_set(src.pixels@, (33 - index) as u32),
{
    let c = choose|c: ColorMapCoefficients| is_view_of(src, out, index, c);
    lemma_count_white_plane(src.pixels@, index, c);
}

/// The one-character string of a decimal digit.
pub open spec fn digit_text(d: int) -> Seq<char> {
    if d == 0 {
        "0"@
    } else if d == 1 {
        "1"@
    } else if d == 2 {
        "2"@
    } else if d == 3 {
        "3"@
    } else if d == 4 {
        "4"@
    } else if d == 5 {
        "5"@
    } else if d == 6 {
        "6"@
    } else if d == 7 {
        "7"@
    } else if d == 8 {
        "8"@
    } else {
        "9"@
    }
}

fn digit_str(d: i32) -> (s: &'static str)
    requires
        0 <= d <= 9,
    ensures
        s@ == digit_text(d as int),
{
    if d == 0 {
        "0"
    } else if d == 1 {
        "1"
    } else if d == 2 {
        "2"
    } else if d == 3 {
        "3"
    } else if d == 4 {
        "4"
    } else if d == 5 {
        "5"
    } else if d == 6 {
        "6"
    } else if d == 7 {
        "7"
    } else if d == 8 {
        "8"
    } else {
        "9"
    }
}

/// The caption of view `index`.
pub open spec fn view_label(index: int) -> Seq<char> {
    if index == 0 {
        "正常图像"@
    } else if index == 1 {
        "颜色反转 (Xor)"@
    } else if 2 <= index <= 9 {
        "Alpha plane "@ + digit_text(9 - index)
    } else if 10 <= index <= 17 {
        "Red plane "@ + digit_text(17 - index)
    } else if 18 <= index <= 25 {
        "Green plane "@ + digit_text(25 - index)
    } else if 26 <= index <= 33 {
        "Blue plane "@ + digit_text(33 - index)
    } else if index == 34 {
        "Full alpha"@
    } else if index == 35 {
        "Full red"@
    } else if index == 36 {
        "Full green"@
    } else if index == 37 {
        "Full blue"@
    } else if index == 38 {
        "Random colour map 1"@
    } else if index == 39 {
        "Random colour map 2"@
    } else if index == 40 {
        "Random colour map 3"@
    } else if index == 41 {
        "灰度"@
    } else {
        ""@
    }
}

/// A source image together with the view of it that is currently selected.
pub struct Transform {
    original_image: PixelGrid,
    transformed_image: PixelGrid,
    trans_num: i32,
    max_trans: i32,
}

impl Transform {
    /// The selected view index.
    pub closed spec fn index(&self) -> int {
        self.trans_num as int
    }

    /// The source image.
    pub closed spec fn source(&self) -> PixelGrid {
        self.original_image
    }

    /// The derived image of the selected view.
    pub closed spec fn image(&self) -> PixelGrid {
        self.transformed_image
    }

    pub closed spec fn wf(&self) -> bool {
        &&& 0 <= self.trans_num <= self.max_trans
        &&& self.max_trans == NUM_VIEWS - 1
        &&& self.original_image.wf()
        &&& self.transformed_image.wf()
        &&& is_some_view_of(self.original_image, self.transformed_image, self.trans_num as int)
    }

    /// Starts on view 0, the unchanged image.
    pub fn new(img: PixelGrid) -> (t: Transform)
        requires
            img.wf(),
        ensures
            t.wf(),
            t.index() == 0,
            is_some_view_of(t.source(), t.image(), t.index()),
            t.source() == img,
            t.image().width == img.width,
            t.image().height == img.height,
            t.image().pixels@ == img.pixels@,
    {
        let transformed_image = copy_grid(&img);
        let t = Transform { original_image: img, transformed_image, trans_num: 0, max_trans: 41 };
        proof {
            let c = ColorMapCoefficients { bm: 0, ba: 0, bx: 0, gm: 0, ga: 0, gx: 0, rm: 0, ra: 0, rx: 0 };
            assert(t.transformed_image.pixels@ =~= view_pixels(img.pixels@, 0, c));
            assert(is_view_of(t.original_image, t.transformed_image, 0, c));
        }
        t
    }

    pub fn get_image(&self) -> (g: &PixelGrid)
        ensures
            *g == self.image(),
    {
        &self.transformed_image
    }

    /// The caption of the selected view.
    pub fn get_text(&self) -> (s: String)
        ensures
            s@ == view_label(self.index()),
    {
        let n = self.trans_num;
        if n == 0 {
            String::from_str("正常图像")
        } else if n == 1 {
            String::from_str("颜色反转 (Xor)")
        } else if 2 <= n && n <= 9 {
            let mut s = String::from_str("Alpha plane ");
            s.append(digit_str(9 - n));
            s
        } else if 10 <= n && n <= 17 {
            let mut s = String::from_str("Red plane ");
            s.append(digit_str(17 - n));
            s
        } else if 18 <= n && n <= 25 {
            let mut s = String::from_str("Green plane ");
            s.append(digit_str(25 - n));
            s
        } else if 26 <= n && n <= 33 {
            let mut s = String::from_str("Blue plane ");
            s.append(digit_str(33 - n));
            s
        } else if n == 34 {
            String::from_str("Full alpha")
        } else if n == 35 {
            String::from_str("Full red")
        } else if n == 36 {
            String::from_str("Full green")
        } else if n == 37 {
            String::from_str("Full blue")
        } else if n == 38 {
            String::from_str("Random colour map 1")
        } else if n == 39 {
            String::from_str("Random colour map 2")
        } else if n == 40 {
            String::from_str("Random colour map 3")
        } else if n == 41 {
            String::from_str("灰度")
        } else {
            proof {
                reveal_strlit("");
            }
            String::new()
        }
    }

    /// Steps to the previous view, wrapping from 0 to the last, and recomputes the image.
    pub fn back(&mut self)
        requires
            old(self).wf(),
        ensures
            final(self).wf(),
            final(self).source() == old(self).source(),
            final(self).index() == (old(self).index() + NUM_VIEWS - 1) % (NUM_VIEWS as int),
            is_some_view_of(final(self).source(), final(self).image(), final(self).index()),
    {
        self.trans_num = self.trans_num - 1;
        if self.trans_num < 0 {
            self.trans_num = self.max_trans;
        }
        self.calc_trans();
    }

    /// Steps to the next view, wrapping from the last to 0, and recomputes the image.
    pub fn forward(&mut self)
        requires
            old(self).wf(),
        ensures
            final(self).wf(),
            final(self).source() == old(self).source(),
            final(self).index() == (old(self).index() + 1) % (NUM_VIEWS as int),
            is_some_view_of(final(self).source(), final(self).image(), final(self).index()),
    {
        self.trans_num = self.trans_num + 1;
        if self.trans_num > self.max_trans {
            self.trans_num = 0;
        }
        self.calc_trans();
    }

    fn calc_trans(&mut self)
        requires
            0 <= old(self).trans_num <= old(self).max_trans,
            old(self).max_trans == NUM_VIEWS - 1,
            old(self).original_image.wf(),
        ensures
            final(self).wf(),
            final(self).trans_num == old(self).trans_num,
            final(self).original_image == old(self).original_image,
    {
        self.transformed_image = compute(&self.original_image, self.trans_num as u32);
    }
}

/// A pixel-for-pixel copy of `g`.
pub fn copy_grid(g: &PixelGrid) -> (out: PixelGrid)
    ensures
        out.width == g.width,
        out.height == g.height,
        out.pixels@ == g.pixels@,
{
    let n = g.pixels.len();
    let mut pixels: Vec<Pixel> = Vec::with_capacity(n);
    let mut i: usize = 0;
    while i < n
        invariant
            i <= n,
            n == g.pixels@.len(),
            pixels@ == g.pixels@.take(i as int),
        decreases n - i,
    {
        pixels.push(g.pixels[i]);
        i = i + 1;
        assert(pixels@ =~= g.pixels@.take(i as int));
    }
    assert(pixels@ =~= g.pixels@);
    PixelGrid { width: g.width, height: g.height, pixels }
}

} // verus!
