use vstd::prelude::*;

verus! {

/// One RGBA8 pixel.
#[derive(Clone, Copy, Debug, PartialEq, Eq, Structural)]
pub struct Pixel {
    pub r: u8,
    pub g: u8,
    pub b: u8,
    pub a: u8,
}

impl Pixel {
    pub fn new(r: u8, g: u8, b: u8, a: u8) -> (p: Pixel)
        ensures
            p == (Pixel { r, g, b, a }),
    {
        Pixel { r, g, b, a }
    }
}

/// The fully transparent black pixel that stands in for positions outside a grid.
pub open spec fn transparent() -> Pixel {
    Pixel { r: 0, g: 0, b: 0, a: 0 }
}

/// Component `c` of `p`: 0 red, 1 green, 2 blue, 3 alpha.
pub open spec fn channel_of(p: Pixel, c: int) -> u8 {
    if c == 0 {
        p.r
    } else if c == 1 {
        p.g
    } else if c == 2 {
        p.b
    } else {
        p.a
    }
}

/// The pixel made of bytes `4k` to `4k + 3` of `raw`.
pub open spec fn pixel_of_raw(raw: Seq<u8>, k: int) -> Pixel {
    Pixel { r: raw[4 * k], g: raw[4 * k + 1], b: raw[4 * k + 2], a: raw[4 * k + 3] }
}

proof fn lemma_raw_round_trip(pixels: Seq<Pixel>, raw: Seq<u8>)
    requires
        raw.len() == 4 * pixels.len(),
        forall|k: int| 0 <= k < pixels.len() ==> #[trigger] pixels[k] == pixel_of_raw(raw, k),
    ensures
        Seq::new(4 * pixels.len(), |i: int| channel_of(pixels[i / 4], i % 4)) == raw,
{
    let s = Seq::new(4 * pixels.len(), |i: int| channel_of(pixels[i / 4], i % 4));
    assert forall|i: int| 0 <= i < raw.len() implies s[i] == raw[i] by {
        let k = i / 4;
        assert(pixels[k] == pixel_of_raw(raw, k));
    }
    assert(s =~= raw);
}

/// A width x height grid of pixels stored row by row.
pub struct PixelGrid {
    pub width: u32,
    pub height: u32,
    pub pixels: Vec<Pixel>,
}

impl PixelGrid {
    /// The grid holds exactly one pixel per position.
    pub open spec fn wf(&self) -> bool {
        self.pixels@.len() == self.width as int * self.height as int
    }

    /// Row-major index of position (x, y).
    pub open spec fn idx(&self, x: int, y: int) -> int {
        y * self.width as int + x
    }

    pub open spec fn in_bounds(&self, x: int, y: int) -> bool {
        0 <= x < self.width && 0 <= y < self.height
    }

    /// The pixel at (x, y), transparent black outside the grid.
    pub open spec fn at(&self, x: int, y: int) -> Pixel {
        if self.in_bounds(x, y) {
            self.pixels@[self.idx(x, y)]
        } else {
            transparent()
        }
    }

    /// A grid of the given size over `pixels`, or `None` unless there is exactly one
    /// pixel per position.
    pub fn from_pixels(width: u32, height: u32, pixels: Vec<Pixel>) -> (g: Option<PixelGrid>)
        ensures
            g is Some <==> pixels@.len() == width as int * height as int,
            g matches Some(grid) ==> grid.wf() && grid.width == width && grid.height == height
                && grid.pixels@ == pixels@,
    {
        let len = pixels.len();
        match (width as usize).checked_mul(height as usize) {
            Some(n) => {
                if n == len {
                    Some(PixelGrid { width, height, pixels })
                } else {
                    None
                }
            },
            None => None,
        }
    }

    /// A grid of the given size over row-major RGBA bytes, or `None` unless there are
    /// exactly four bytes per position.
    pub fn from_raw(width: u32, height: u32, raw: &Vec<u8>) -> (g: Option<PixelGrid>)
        ensures
            g is Some <==> raw@.len() == 4 * (width as int * height as int),
            g matches Some(grid) ==> grid.wf() && grid.width == width && grid.height == height
                && grid.raw_bytes() == raw@,
    {
        let len = raw.len();
        let n: usize = len / 4;
        if len % 4 != 0 {
            return None;
        }
        match (width as usize).checked_mul(height as usize) {
            Some(m) => {
                if m != n {
                    return None;
                }
            },
            None => {
                return None;
            },
        }
        let mut pixels: Vec<Pixel> = Vec::with_capacity(n);
        let mut i: usize = 0;
        while i < n
            invariant
                len == raw@.len(),
                n == len / 4,
                len % 4 == 0,
                i <= n,
                pixels@.len() == i,
                forall|k: int| 0 <= k < i ==> #[trigger] pixels@[k] == pixel_of_raw(raw@, k),
            decreases n - i,
        {
            let p = Pixel { r: raw[4 * i], g: raw[4 * i + 1], b: raw[4 * i + 2], a: raw[4 * i + 3] };
            pixels.push(p);
            i = i + 1;
        }
        let grid = PixelGrid { width, height, pixels };
        proof {
            lemma_raw_round_trip(grid.pixels@, raw@);
        }
        Some(grid)
    }

    /// The pixels as row-major RGBA bytes.
    pub open spec fn raw_bytes(&self) -> Seq<u8> {
        Seq::new(
            4 * self.pixels@.len(),
            |i: int| channel_of(self.pixels@[i / 4], i % 4),
        )
    }

    /// The pixels as row-major RGBA bytes.
    pub fn to_raw(&self) -> (raw: Vec<u8>)
        ensures
            raw@ == self.raw_bytes(),
    {
        let n = self.pixels.len();
        let mut raw: Vec<u8> = Vec::new();
        let mut i: usize = 0;
        while i < n
            invariant
                n == self.pixels@.len(),
                i <= n,
                raw@.len() == 4 * i,
                forall|k: int| 0 <= k < 4 * i ==> raw@[k] == channel_of(self.pixels@[k / 4], k % 4),
            decreases n - i,
        {
            let p = self.pixels[i];
            raw.push(p.r);
            raw.push(p.g);
            raw.push(p.b);
            raw.push(p.a);
            i = i + 1;
        }
        assert(raw@ =~= self.raw_bytes());
        raw
    }

    /// The pixel at (x, y).
    pub fn get_pixel(&self, x: u32, y: u32) -> (p: Pixel)
        requires
            self.wf(),
            x < self.width,
            y < self.height,
        ensures
            p == self.at(x as int, y as int),
    {
        let len = self.pixels.len();
        proof {
            assert(0 <= (y as int) * (self.width as int) + (x as int) < (self.width as int) * (
            self.height as int)) by (nonlinear_arith)
                requires
                    x < self.width,
                    y < self.height,
            ;
        }
        let row: usize = (y as usize) * (self.width as usize);
        self.pixels[row + (x as usize)]
    }

    /// A grid of the given size filled with transparent black.
    pub fn new(width: u32, height: u32) -> (g: PixelGrid)
        requires
            width as int * height as int <= usize::MAX,
        ensures
            g.wf(),
            g.width == width,
            g.height == height,
            forall|i: int| 0 <= i < g.pixels@.len() ==> g.pixels@[i] == transparent(),
    {
        let n: usize = (width as usize) * (height as usize);
        let mut pixels: Vec<Pixel> = Vec::with_capacity(n);
        let mut i: usize = 0;
        while i < n
            invariant
                i <= n,
                pixels@.len() == i,
                forall|k: int| 0 <= k < i ==> pixels@[k] == transparent(),
            decreases n - i,
        {
            pixels.push(Pixel { r: 0, g: 0, b: 0, a: 0 });
            i = i + 1;
        }
        PixelGrid { width, height, pixels }
    }
}

} // verus!
