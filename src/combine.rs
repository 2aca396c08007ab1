use vstd::prelude::*;

use crate::grid::{Pixel, PixelGrid};

verus! {

/// Number of combining modes; modes run from 0 to `NUM_TRANSFORMS - 1`.
pub const NUM_TRANSFORMS: i32 = 13;

/// Mode `mode` (0 to 10) applied to one colour component of each image.
pub open spec fn combine_channel(mode: int, x: u8, y: u8) -> u8 {
    if mode == 0 {
        x ^ y
    } else if mode == 1 {
        x | y
    } else if mode == 2 {
        x & y
    } else if mode == 3 {
        if x + y > 255 {
            255
        } else {
            (x + y) as u8
        }
    } else if mode == 4 {
        ((x + y) % 256) as u8
    } else if mode == 5 {
        if x < y {
            0
        } else {
            (x - y) as u8
        }
    } else if mode == 6 {
        ((256 + x - y) % 256) as u8
    } else if mode == 7 {
        ((x * y) / 256) as u8
    } else if mode == 8 {
        ((x * y) % 256) as u8
    } else if mode == 9 {
        if x >= y {
            x
        } else {
            y
        }
    } else {
        if x <= y {
            x
        } else {
            y
        }
    }
}

pub open spec fn combine_pixel(mode: int, p: Pixel, q: Pixel) -> Pixel {
    Pixel {
        r: combine_channel(mode, p.r, q.r),
        g: combine_channel(mode, p.g, q.g),
        b: combine_channel(mode, p.b, q.b),
        a: 255,
    }
}

pub open spec fn max_u32(x: u32, y: u32) -> u32 {
    if x >= y {
        x
    } else {
        y
    }
}

pub open spec fn min_u32(x: u32, y: u32) -> u32 {
    if x <= y {
        x
    } else {
        y
    }
}

/// Pixels of the component-wise combination of `a` and `b` on a `w` x `h` grid, with
/// transparent black outside either source.
pub open spec fn combined_pixels(a: PixelGrid, b: PixelGrid, mode: int, w: int, h: int) -> Seq<
    Pixel,
> {
    Seq::new(
        (w * h) as nat,
        |k: int| combine_pixel(mode, a.at(k % w, k / w), b.at(k % w, k / w)),
    )
}

/// Rows of `a` and `b` alternating: output row `2y` is row `y` of `a`, row `2y + 1` row `y`
/// of `b`, on a `w` x `2h` grid.
pub open spec fn row_interlaced(a: PixelGrid, b: PixelGrid, w: int, h: int) -> Seq<Pixel> {
    Seq::new(
        (w * (2 * h)) as nat,
        |k: int|
            {
                let x = k % w;
                let row = k / w;
                if row % 2 == 0 {
                    a.at(x, row / 2)
                } else {
                    b.at(x, row / 2)
                }
            },
    )
}

/// Columns of `a` and `b` alternating: output column `2x` is column `x` of `a`, column
/// `2x + 1` column `x` of `b`, on a `2w` x `h` grid.
pub open spec fn column_interlaced(a: PixelGrid, b: PixelGrid, w: int, h: int) -> Seq<Pixel> {
    Seq::new(
        ((2 * w) * h) as nat,
        |k: int|
            {
                let col = k % (2 * w);
                let y = k / (2 * w);
                if col % 2 == 0 {
                    a.at(col / 2, y)
                } else {
                    b.at(col / 2, y)
                }
            },
    )
}

/// The output of mode `mode` fits in memory and its sides in 32 bits.
pub open spec fn combine_fits(a: PixelGrid, b: PixelGrid, mode: int) -> bool {
    let wmax = max_u32(a.width, b.width) as int;
    let hmax = max_u32(a.height, b.height) as int;
    let wmin = min_u32(a.width, b.width) as int;
    let hmin = min_u32(a.height, b.height) as int;
    if mode == 11 {
        2 * hmin <= u32::MAX && wmin * (2 * hmin) <= usize::MAX
    } else if mode == 12 {
        2 * wmin <= u32::MAX && (2 * wmin) * hmin <= usize::MAX
    } else {
        wmax * hmax <= usize::MAX
    }
}

/// `out` is the combination of `a` and `b` under mode `mode`.
pub open spec fn is_combination(a: PixelGrid, b: PixelGrid, mode: int, out: PixelGrid) -> bool {
    let wmin = min_u32(a.width, b.width);
    let hmin = min_u32(a.height, b.height);
    if mode == 11 {
        &&& out.width == wmin
        &&& out.height == 2 * hmin
        &&& out.pixels@ == row_interlaced(a, b, wmin as int, hmin as int)
    } else if mode == 12 {
        &&& out.width == 2 * wmin
        &&& out.height == hmin
        &&& out.pixels@ == column_interlaced(a, b, wmin as int, hmin as int)
    } else {
        &&& out.width == max_u32(a.width, b.width)
        &&& out.height == max_u32(a.height, b.height)
        &&& out.pixels@ == combined_pixels(
            a,
            b,
            mode,
            out.width as int,
            out.height as int,
        )
    }
}

/// XOR of an image with itself is opaque black everywhere.
pub proof fn lemma_xor_self_is_black(a: PixelGrid, out: PixelGrid)
    requires
        a.wf(),
        is_combination(a, a, 0, out),
    ensures
        out.width == a.width,
        out.height == a.height,
        forall|i: int|
            0 <= i < out.pixels@.len() ==> #[trigger] out.pixels@[i] == (Pixel {
                r: 0,
                g: 0,
                b: 0,
                a: 255,
            }),
{
    assert forall|i: int| 0 <= i < out.pixels@.len() implies #[trigger] out.pixels@[i] == (Pixel {
        r: 0,
        g: 0,
        b: 0,
        a: 255,
    }) by {
        let w = out.width as int;
        let p = a.at(i % w, i / w);
        assert(p.r ^ p.r == 0u8) by (bit_vector);
        assert(p.g ^ p.g == 0u8) by (bit_vector);
        assert(p.b ^ p.b == 0u8) by (bit_vector);
    }
}

fn combine_channel_exec(mode: u32, x: u8, y: u8) -> (z: u8)
    requires
        mode <= 10,
    ensures
        z == combine_channel(mode as int, x, y),
{
    proof {
        assert(x as int * y as int <= 255 * 255) by (nonlinear_arith)
            requires
                x <= 255,
                y <= 255,
        ;
    }
    if mode == 0 {
        x ^ y
    } else if mode == 1 {
        x | y
    } else if mode == 2 {
        x & y
    } else if mode == 3 {
        if x as u16 + y as u16 > 255 {
            255
        } else {
            x + y
        }
    } else if mode == 4 {
        ((x as u16 + y as u16) % 256) as u8
    } else if mode == 5 {
        if x < y {
            0
        } else {
            x - y
        }
    } else if mode == 6 {
        ((256 + x as u16 - y as u16) % 256) as u8
    } else if mode == 7 {
        ((x as u16 * y as u16) / 256) as u8
    } else if mode == 8 {
        ((x as u16 * y as u16) % 256) as u8
    } else if mode == 9 {
        if x >= y {
            x
        } else {
            y
        }
    } else {
        if x <= y {
            x
        } else {
            y
        }
    }
}

/// The pixel of `g` at (x, y), or transparent black outside it.
pub fn pixel_or_clear(g: &PixelGrid, x: u32, y: u32) -> (p: Pixel)
    requires
        g.wf(),
    ensures
        p == g.at(x as int, y as int),
{
    if x < g.width && y < g.height {
        g.get_pixel(x, y)
    } else {
        Pixel { r: 0, g: 0, b: 0, a: 0 }
    }
}

/// Step `k` of a row-major walk over a grid `w` wide is position (k % w, k / w).
pub proof fn lemma_row_position(w: int, n: int, k: int)
    requires
        0 <= k < n,
        w > 0,
    ensures
        0 <= k % w < w,
        0 <= k / w,
        (k / w) * w <= k,
        k / w <= n / w,
{
    assert((k / w) * w <= k) by (nonlinear_arith)
        requires
            w > 0,
            k >= 0,
    ;
    assert(k / w <= n / w) by (nonlinear_arith)
        requires
            w > 0,
            0 <= k < n,
    ;
}

/// Component-wise combination (modes 0 to 10) on a grid as large as both sources.
pub fn combine_pixels(a: &PixelGrid, b: &PixelGrid, mode: u32) -> (out: PixelGrid)
    requires
        a.wf(),
        b.wf(),
        mode <= 10,
        combine_fits(*a, *b, mode as int),
    ensures
        out.wf(),
        is_combination(*a, *b, mode as int, out),
{
    let width = if a.width >= b.width {
        a.width
    } else {
        b.width
    };
    let height = if a.height >= b.height {
        a.height
    } else {
        b.height
    };
    let n: usize = (width as usize) * (height as usize);
    let mut pixels: Vec<Pixel> = Vec::with_capacity(n);
    let mut k: usize = 0;
    while k < n
        invariant
            a.wf(),
            b.wf(),
            mode <= 10,
            n == width as int * height as int,
            k <= n,
            pixels@.len() == k,
            forall|i: int|
                0 <= i < k ==> pixels@[i] == combined_pixels(
                    *a,
                    *b,
                    mode as int,
                    width as int,
                    height as int,
                )[i],
        decreases n - k,
    {
        proof {
            lemma_row_position(width as int, n as int, k as int);
        }
        let x: u32 = (k % (width as usize)) as u32;
        let y: u32 = (k / (width as usize)) as u32;
        proof {
            assert(k as int / width as int <= height as int) by (nonlinear_arith)
                requires
                    0 <= k < n,
                    n == width as int * height as int,
                    width > 0,
            ;
        }
        let p = pixel_or_clear(a, x, y);
        let q = pixel_or_clear(b, x, y);
        let c = Pixel {
            r: combine_channel_exec(mode, p.r, q.r),
            g: combine_channel_exec(mode, p.g, q.g),
            b: combine_channel_exec(mode, p.b, q.b),
            a: 255,
        };
        pixels.push(c);
        k = k + 1;
    }
    let out = PixelGrid { width, height, pixels };
    assert(out.pixels@ =~= combined_pixels(*a, *b, mode as int, width as int, height as int));
    out
}

/// Rows of `a` and `b` alternating, both cropped to their shared size.
pub fn horizontal_interlace(a: &PixelGrid, b: &PixelGrid) -> (out: PixelGrid)
    requires
        a.wf(),
        b.wf(),
        combine_fits(*a, *b, 11),
    ensures
        out.wf(),
        is_combination(*a, *b, 11, out),
{
    let width = if a.width <= b.width {
        a.width
    } else {
        b.width
    };
    let height = if a.height <= b.height {
        a.height
    } else {
        b.height
    };
    let out_height: u32 = height * 2;
    let n: usize = (width as usize) * (out_height as usize);
    let mut pixels: Vec<Pixel> = Vec::with_capacity(n);
    let mut k: usize = 0;
    while k < n
        invariant
            a.wf(),
            b.wf(),
            n == width as int * out_height as int,
            out_height == 2 * height,
            k <= n,
            pixels@.len() == k,
            forall|i: int|
                0 <= i < k ==> pixels@[i] == row_interlaced(
                    *a,
                    *b,
                    width as int,
                    height as int,
                )[i],
        decreases n - k,
    {
        proof {
            lemma_row_position(width as int, n as int, k as int);
            assert(k as int / width as int <= out_height as int) by (nonlinear_arith)
                requires
                    0 <= k < n,
                    n == width as int * out_height as int,
                    width > 0,
            ;
        }
        let x: u32 = (k % (width as usize)) as u32;
        let row: u32 = (k / (width as usize)) as u32;
        let p = if row % 2 == 0 {
            pixel_or_clear(a, x, row / 2)
        } else {
            pixel_or_clear(b, x, row / 2)
        };
        pixels.push(p);
        k = k + 1;
    }
    let out = PixelGrid { width, height: out_height, pixels };
    assert(out.pixels@ =~= row_interlaced(*a, *b, width as int, height as int));
    out
}

/// Columns of `a` and `b` alternating, both cropped to their shared size.
pub fn vertical_interlace(a: &PixelGrid, b: &PixelGrid) -> (out: PixelGrid)
    requires
        a.wf(),
        b.wf(),
        combine_fits(*a, *b, 12),
    ensures
        out.wf(),
        is_combination(*a, *b, 12, out),
{
    let width = if a.width <= b.width {
        a.width
    } else {
        b.width
    };
    let height = if a.height <= b.height {
        a.height
    } else {
        b.height
    };
    let out_width: u32 = width * 2;
    let n: usize = (out_width as usize) * (height as usize);
    let mut pixels: Vec<Pixel> = Vec::with_capacity(n);
    let mut k: usize = 0;
    while k < n
        invariant
            a.wf(),
            b.wf(),
            n == out_width as int * height as int,
            out_width == 2 * width,
            k <= n,
            pixels@.len() == k,
            forall|i: int|
                0 <= i < k ==> pixels@[i] == column_interlaced(
                    *a,
                    *b,
                    width as int,
                    height as int,
                )[i],
        decreases n - k,
    {
        proof {
            lemma_row_position(out_width as int, n as int, k as int);
            assert(k as int / out_width as int <= height as int) by (nonlinear_arith)
                requires
                    0 <= k < n,
                    n == out_width as int * height as int,
                    out_width > 0,
            ;
        }
        let col: u32 = (k % (out_width as usize)) as u32;
        let y: u32 = (k / (out_width as usize)) as u32;
        let p = if col % 2 == 0 {
            pixel_or_clear(a, col / 2, y)
        } else {
            pixel_or_clear(b, col / 2, y)
        };
        pixels.push(p);
        k = k + 1;
    }
    let out = PixelGrid { width: out_width, height, pixels };
    assert(out.pixels@ =~= column_interlaced(*a, *b, width as int, height as int));
    out
}

/// Combines `a` and `b` under mode `mode`: component-wise for modes 0 to 10, row
/// interlace for 11, column interlace for 12.
pub fn combine(a: &PixelGrid, b: &PixelGrid, mode: u32) -> (out: PixelGrid)
    requires
        a.wf(),
        b.wf(),
        mode < NUM_TRANSFORMS,
        combine_fits(*a, *b, mode as int),
    ensures
        out.wf(),
        is_combination(*a, *b, mode as int, out),
{
    if mode == 11 {
        horizontal_interlace(a, b)
    } else if mode == 12 {
        vertical_interlace(a, b)
    } else {
        combine_pixels(a, b, mode)
    }
}

/// Whether the output of mode `mode` on `a` and `b` fits in memory and in 32-bit sides.
pub fn output_fits(a: &PixelGrid, b: &PixelGrid, mode: u32) -> (r: bool)
    ensures
        r == combine_fits(*a, *b, mode as int),
{
    let wmin = if a.width <= b.width {
        a.width
    } else {
        b.width
    };
    let hmin = if a.height <= b.height {
        a.height
    } else {
        b.height
    };
    if mode == 11 {
        match hmin.checked_mul(2) {
            Some(h2) => (wmin as usize).checked_mul(h2 as usize).is_some(),
            None => false,
        }
    } else if mode == 12 {
        match wmin.checked_mul(2) {
            Some(w2) => (w2 as usize).checked_mul(hmin as usize).is_some(),
            None => false,
        }
    } else {
        let wmax = if a.width >= b.width {
            a.width
        } else {
            b.width
        };
        let hmax = if a.height >= b.height {
            a.height
        } else {
            b.height
        };
        (wmax as usize).checked_mul(hmax as usize).is_some()
    }
}

/// The caption of combining mode `mode`.
pub open spec fn mode_label(mode: int) -> Seq<char> {
    if mode == 0 {
        "XOR"@
    } else if mode == 1 {
        "OR"@
    } else if mode == 2 {
        "AND"@
    } else if mode == 3 {
        "ADD"@
    } else if mode == 4 {
        "ADD (R,G,B separate)"@
    } else if mode == 5 {
        "SUB"@
    } else if mode == 6 {
        "SUB (R,G,B separate)"@
    } else if mode == 7 {
        "MUL"@
    } else if mode == 8 {
        "MUL (R,G,B separate)"@
    } else if mode == 9 {
        "Lightest (R,G,B separate)"@
    } else if mode == 10 {
        "Darkest (R,G,B separate)"@
    } else if mode == 11 {
        "Horizontal Interlace"@
    } else if mode == 12 {
        "Vertical Interlace"@
    } else {
        "???"@
    }
}

/// A first image, an optional second one, and the selected combining mode.
pub struct ImageCombiner {
    img1: PixelGrid,
    img2: Option<PixelGrid>,
    transform_num: i32,
}

impl ImageCombiner {
    pub closed spec fn first(&self) -> PixelGrid {
        self.img1
    }

    pub closed spec fn second(&self) -> Option<PixelGrid> {
        self.img2
    }

    /// The selected mode.
    pub closed spec fn mode(&self) -> int {
        self.transform_num as int
    }

    pub closed spec fn wf(&self) -> bool {
        &&& 0 <= self.transform_num < NUM_TRANSFORMS
        &&& self.img1.wf()
        &&& (self.img2 matches Some(g) ==> g.wf())
    }

    /// Starts in mode 0 with no second image.
    pub fn new(img1: PixelGrid) -> (c: ImageCombiner)
        requires
            img1.wf(),
        ensures
            c.wf(),
            c.first() == img1,
            c.second() is None,
            c.mode() == 0,
    {
        ImageCombiner { img1, img2: None, transform_num: 0 }
    }

    /// Sets the image that the first is combined with.
    pub fn set_second_image(&mut self, img2: PixelGrid)
        requires
            old(self).wf(),
            img2.wf(),
        ensures
            final(self).wf(),
            final(self).first() == old(self).first(),
            final(self).second() == Some(img2),
            final(self).mode() == old(self).mode(),
    {
        self.img2 = Some(img2);
    }

    /// Steps to the previous mode, wrapping from 0 to the last; does nothing while there
    /// is no second image.
    pub fn backward(&mut self)
        requires
            old(self).wf(),
        ensures
            final(self).wf(),
            final(self).first() == old(self).first(),
            final(self).second() == old(self).second(),
            final(self).mode() == if old(self).second() is None {
                old(self).mode()
            } else {
                (old(self).mode() + NUM_TRANSFORMS - 1) % (NUM_TRANSFORMS as int)
            },
    {
        if self.img2.is_none() {
            return;
        }
        self.transform_num = if self.transform_num <= 0 {
            NUM_TRANSFORMS - 1
        } else {
            self.transform_num - 1
        };
    }

    /// Steps to the next mode, wrapping from the last to 0; does nothing while there is
    /// no second image.
    pub fn forward(&mut self)
        requires
            old(self).wf(),
        ensures
            final(self).wf(),
            final(self).first() == old(self).first(),
            final(self).second() == old(self).second(),
            final(self).mode() == if old(self).second() is None {
                old(self).mode()
            } else {
                (old(self).mode() + 1) % (NUM_TRANSFORMS as int)
            },
    {
        if self.img2.is_none() {
            return;
        }
        self.transform_num = (self.transform_num + 1) % NUM_TRANSFORMS;
    }

    /// Whether the combined image of the selected mode fits in memory.
    pub fn combined_fits(&self) -> (r: bool)
        requires
            self.wf(),
        ensures
            r == (self.second() matches Some(g) && combine_fits(self.first(), g, self.mode())),
    {
        match &self.img2 {
            Some(g) => output_fits(&self.img1, g, self.transform_num as u32),
            None => false,
        }
    }

    /// The combination of the two images under the selected mode, or `None` while there
    /// is no second image.
    pub fn get_combined_image(&self) -> (r: Option<PixelGrid>)
        requires
            self.wf(),
            self.second() matches Some(g) ==> combine_fits(self.first(), g, self.mode()),
        ensures
            r is None <==> self.second() is None,
            r matches Some(out) ==> out.wf() && is_combination(
                self.first(),
                self.second().unwrap(),
                self.mode(),
                out,
            ),
    {
        match &self.img2 {
            Some(g) => Some(combine(&self.img1, g, self.transform_num as u32)),
            None => None,
        }
    }

    /// The caption of the selected mode.
    pub fn get_transform_text(&self) -> (s: String)
        ensures
            s@ == mode_label(self.mode()),
    {
        let n = self.transform_num;
        if n == 0 {
            String::from_str("XOR")
        } else if n == 1 {
            String::from_str("OR")
        } else if n == 2 {
            String::from_str("AND")
        } else if n == 3 {
            String::from_str("ADD")
        } else if n == 4 {
            String::from_str("ADD (R,G,B separate)")
        } else if n == 5 {
            String::from_str("SUB")
        } else if n == 6 {
            String::from_str("SUB (R,G,B separate)")
        } else if n == 7 {
            String::from_str("MUL")
        } else if n == 8 {
            String::from_str("MUL (R,G,B separate)")
        } else if n == 9 {
            String::from_str("Lightest (R,G,B separate)")
        } else if n == 10 {
            String::from_str("Darkest (R,G,B separate)")
        } else if n == 11 {
            String::from_str("Horizontal Interlace")
        } else if n == 12 {
            String::from_str("Vertical Interlace")
        } else {
            String::from_str("???")
        }
    }
}

} // verus!
