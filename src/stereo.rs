use vstd::arithmetic::div_mod::lemma_fundamental_div_mod_converse;
use vstd::prelude::*;

use crate::combine::{lemma_row_position, pixel_or_clear};
use crate::grid::{Pixel, PixelGrid};
use crate::preview::ascii_to_string;

verus! {

/// The RGB of `p` XORed with that of `q`, opaque.
pub open spec fn xor_pixel(p: Pixel, q: Pixel) -> Pixel {
    Pixel { r: p.r ^ q.r, g: p.g ^ q.g, b: p.b ^ q.b, a: 255 }
}

/// Each pixel XORed with the pixel `offset` columns to its right, wrapping around the row.
pub open spec fn stereo_pixels(src: PixelGrid, offset: int) -> Seq<Pixel> {
    let w = src.width as int;
    Seq::new(
        src.pixels@.len(),
        |k: int| xor_pixel(src.at(k % w, k / w), src.at((k % w + offset) % w, k / w)),
    )
}

/// Decimal digits of `n`.
pub open spec fn decimal(n: nat) -> Seq<u8>
    decreases n,
{
    if n < 10 {
        seq![(48 + n) as u8]
    } else {
        decimal(n / 10) + seq![(48 + n % 10) as u8]
    }
}

/// Decimal text of a signed number.
pub open spec fn signed_decimal(n: int) -> Seq<u8> {
    if n < 0 {
        seq![0x2du8] + decimal((-n) as nat)
    } else {
        decimal(n as nat)
    }
}

fn push_decimal(out: &mut Vec<u8>, n: u32)
    ensures
        final(out)@ == old(out)@ + decimal(n as nat),
    decreases n,
{
    if n >= 10 {
        push_decimal(out, n / 10);
    }
    out.push(48 + (n % 10) as u8);
    proof {
        assert(final(out)@ =~= old(out)@ + decimal(n as nat));
    }
}

/// A source image XORed with itself shifted sideways by a selectable offset.
pub struct StereoTransform {
    original_image: PixelGrid,
    transform: PixelGrid,
    trans_num: i32,
}

impl StereoTransform {
    pub closed spec fn source(&self) -> PixelGrid {
        self.original_image
    }

    pub closed spec fn image(&self) -> PixelGrid {
        self.transform
    }

    /// The selected offset.
    pub closed spec fn offset(&self) -> int {
        self.trans_num as int
    }

    pub closed spec fn wf(&self) -> bool {
        &&& self.original_image.wf()
        &&& self.original_image.width <= i32::MAX
        &&& self.original_image.width > 0 ==> 0 <= self.trans_num < self.original_image.width
        &&& self.original_image.width == 0 ==> -1 <= self.trans_num <= 0
        &&& self.transform.width == self.original_image.width
        &&& self.transform.height == self.original_image.height
        &&& self.transform.pixels@ == stereo_pixels(self.original_image, self.trans_num as int)
    }

    /// Starts at offset 0.
    pub fn new(img: PixelGrid) -> (t: StereoTransform)
        requires
            img.wf(),
            img.width <= i32::MAX,
        ensures
            t.wf(),
            t.source() == img,
            t.offset() == 0,
            t.image().width == img.width,
            t.image().height == img.height,
            t.image().pixels@ == stereo_pixels(img, 0),
    {
        let transform = calc_trans(&img, 0);
        StereoTransform { original_image: img, transform, trans_num: 0 }
    }

    /// Steps to the previous offset, wrapping from 0 to the last column.
    pub fn back(&mut self)
        requires
            old(self).wf(),
        ensures
            final(self).wf(),
            final(self).source() == old(self).source(),
            final(self).image().width == final(self).source().width,
            final(self).image().height == final(self).source().height,
            final(self).image().pixels@ == stereo_pixels(final(self).source(), final(self).offset()),
            old(self).source().width > 0 ==> final(self).offset() == (old(self).offset()
                + old(self).source().width - 1) % (old(self).source().width as int),
    {
        self.trans_num = self.trans_num - 1;
        if self.trans_num < 0 {
            self.trans_num = self.original_image.width as i32 - 1;
        }
        proof {
            let w = old(self).original_image.width as int;
            if w > 0 {
                lemma_wrap_step(old(self).trans_num + w - 1, w);
            }
        }
        self.transform = calc_trans(&self.original_image, self.trans_num);
    }

    /// Steps to the next offset, wrapping from the last column to 0.
    pub fn forward(&mut self)
        requires
            old(self).wf(),
        ensures
            final(self).wf(),
            final(self).source() == old(self).source(),
            final(self).image().width == final(self).source().width,
            final(self).image().height == final(self).source().height,
            final(self).image().pixels@ == stereo_pixels(final(self).source(), final(self).offset()),
            old(self).source().width > 0 ==> final(self).offset() == (old(self).offset() + 1)
                % (old(self).source().width as int),
    {
        self.trans_num = self.trans_num + 1;
        if self.trans_num >= self.original_image.width as i32 {
            self.trans_num = 0;
        }
        proof {
            let w = old(self).original_image.width as int;
            if w > 0 {
                lemma_wrap_step(old(self).trans_num + 1, w);
            }
        }
        self.transform = calc_trans(&self.original_image, self.trans_num);
    }

    /// The caption: the current offset.
    pub fn get_text(&self) -> (s: String)
        ensures
            s@ == ("偏移量: "@ + signed_decimal(self.offset()).map_values(|b: u8| b as char)),
    {
        let mut digits: Vec<u8> = Vec::new();
        if self.trans_num < 0 {
            digits.push(0x2du8);
            push_decimal(&mut digits, (0 - self.trans_num as i64) as u32);
        } else {
            push_decimal(&mut digits, self.trans_num as u32);
        }
        proof {
            assert(digits@ =~= signed_decimal(self.offset()));
            lemma_decimal_ascii(if self.offset() < 0 { (-self.offset()) as nat } else { self.offset() as nat });
        }
        let mut s = String::from_str("偏移量: ");
        let tail = ascii_to_string(digits);
        s.append(tail.as_str());
        s
    }

    pub fn get_image(&self) -> (g: &PixelGrid)
        ensures
            *g == self.image(),
    {
        &self.transform
    }
}

pub proof fn lemma_decimal_ascii(n: nat)
    ensures
        forall|i: int| 0 <= i < decimal(n).len() ==> decimal(n)[i] < 128,
    decreases n,
{
    if n >= 10 {
        lemma_decimal_ascii(n / 10);
        let last = seq![(48 + n % 10) as u8];
        assert(decimal(n) == decimal(n / 10) + last);
        assert forall|i: int| 0 <= i < decimal(n).len() implies decimal(n)[i] < 128 by {
            if i < decimal(n / 10).len() {
                assert(decimal(n)[i] == decimal(n / 10)[i]);
            }
        }
    }
}

/// A value below twice the modulus wraps by at most one subtraction.
pub proof fn lemma_wrap_step(s: int, w: int)
    requires
        0 <= s < 2 * w,
    ensures
        s % w == if s >= w {
            s - w
        } else {
            s
        },
{
    if s >= w {
        lemma_fundamental_div_mod_converse(s, w, 1, s - w);
    } else {
        lemma_fundamental_div_mod_converse(s, w, 0, s);
    }
}

/// The stereo view of `src` at `offset`.
fn calc_trans(src: &PixelGrid, offset: i32) -> (out: PixelGrid)
    requires
        src.wf(),
        src.width <= i32::MAX,
        src.width > 0 ==> 0 <= offset < src.width,
    ensures
        out.width == src.width,
        out.height == src.height,
        out.pixels@ == stereo_pixels(*src, offset as int),
{
    let width = src.width;
    let n = src.pixels.len();
    let mut pixels: Vec<Pixel> = Vec::with_capacity(n);
    let mut k: usize = 0;
    while k < n
        invariant
            src.wf(),
            n == src.pixels@.len(),
            width == src.width,
            src.width > 0 ==> 0 <= offset < src.width,
            k <= n,
            pixels@.len() == k,
            forall|i: int| 0 <= i < k ==> pixels@[i] == stereo_pixels(*src, offset as int)[i],
        decreases n - k,
    {
        proof {
            assert(width > 0) by (nonlinear_arith)
                requires
                    0 <= k < n,
                    n == src.width as int * src.height as int,
                    width == src.width,
            ;
            lemma_row_position(width as int, n as int, k as int);
            assert(k as int / width as int <= src.height as int) by (nonlinear_arith)
                requires
                    0 <= k < n,
                    n == width as int * src.height as int,
                    width > 0,
            ;
        }
        let x: u32 = (k % (width as usize)) as u32;
        let y: u32 = (k / (width as usize)) as u32;
        let shifted: u64 = x as u64 + offset as u64;
        let ox: u32 = if shifted >= width as u64 {
            (shifted - width as u64) as u32
        } else {
            shifted as u32
        };
        proof {
            lemma_wrap_step(x as int + offset as int, width as int);
        }
        let p = pixel_or_clear(src, x, y);
        let q = pixel_or_clear(src, ox, y);
        pixels.push(Pixel { r: p.r ^ q.r, g: p.g ^ q.g, b: p.b ^ q.b, a: 255 });
        k = k + 1;
    }
    let out = PixelGrid { width, height: src.height, pixels };
    assert(out.pixels@ =~= stereo_pixels(*src, offset as int));
    out
}

} // verus!
