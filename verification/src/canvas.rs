//! An owned RGBA pixel grid: the working pixel buffer that every transform
//! consumes and produces. Pixels are stored row-major, pixel `(x, y)` at
//! index `y * width + x`.

use vstd::prelude::*;

use crate::color::Rgba;

verus! {

/// The mathematical value of a pixel grid: its dimensions and its pixels,
/// row-major.
pub ghost struct Frame {
    pub w: nat,
    pub h: nat,
    pub px: Seq<Rgba>,
}

/// The pixel at `(x, y)` of a row-major pixel sequence of width `w`.
pub open spec fn grid_at(px: Seq<Rgba>, w: int, x: int, y: int) -> Rgba {
    px[y * w + x]
}

impl Frame {
    /// Validity: one pixel per grid cell.
    pub open spec fn wf(self) -> bool {
        self.px.len() == self.w * self.h
    }

    /// The pixel at `(x, y)`.
    pub open spec fn at(self, x: int, y: int) -> Rgba {
        grid_at(self.px, self.w as int, x, y)
    }

    /// Whether `(x, y)` lies on the grid.
    pub open spec fn contains(self, x: int, y: int) -> bool {
        0 <= x < self.w && 0 <= y < self.h
    }
}

/// A row-major index is on the grid.
pub proof fn lemma_grid_index(w: int, h: int, x: int, y: int)
    requires
        0 <= x < w,
        0 <= y < h,
    ensures
        0 <= y * w + x < w * h,
        (y * w + x) % w == x,
        (y * w + x) / w == y,
{
    assert(0 <= y * w + x < w * h && (y * w + x) % w == x && (y * w + x) / w == y)
        by (nonlinear_arith)
        requires
            0 <= x < w,
            0 <= y < h,
    ;
}

/// Distinct cells have distinct row-major indices.
pub proof fn lemma_grid_distinct(w: int, x1: int, y1: int, x2: int, y2: int)
    requires
        0 <= x1 < w,
        0 <= x2 < w,
        x1 != x2 || y1 != y2,
    ensures
        y1 * w + x1 != y2 * w + x2,
{
    assert(y1 * w + x1 != y2 * w + x2) by (nonlinear_arith)
        requires
            0 <= x1 < w,
            0 <= x2 < w,
            x1 != x2 || y1 != y2,
    ;
}

/// An owned pixel buffer of `width * height` RGBA pixels, row-major.
#[derive(Clone, Debug)]
pub struct Canvas {
    pub width: u32,
    pub height: u32,
    pub pixels: Vec<Rgba>,
}

impl View for Canvas {
    type V = Frame;

    open spec fn view(&self) -> Frame {
        Frame { w: self.width as nat, h: self.height as nat, px: self.pixels@ }
    }
}

impl Canvas {
    /// Validity: one pixel per grid cell.
    pub open spec fn wf(self) -> bool {
        self@.wf()
    }

    /// A canvas of `w * h` cells, every pixel `color`.
    pub fn filled(w: u32, h: u32, color: Rgba) -> (c: Canvas)
        ensures
            c.wf(),
            c@.w == w,
            c@.h == h,
            forall|k: int| 0 <= k < c@.px.len() ==> c@.px[k] == color,
    {
        proof {
            assert((w as int) * (h as int) < 0x1_0000_0000_0000_0000) by (nonlinear_arith)
                requires
                    w <= 0xffff_ffffu32,
                    h <= 0xffff_ffffu32,
            ;
        }
        let total: u64 = (w as u64) * (h as u64);
        let mut pixels: Vec<Rgba> = Vec::new();
        let mut i: u64 = 0;
        while i < total
            invariant
                i <= total,
                total == (w as int) * (h as int),
                pixels@.len() == i,
                forall|k: int| 0 <= k < i ==> pixels@[k] == color,
            decreases total - i,
        {
            pixels.push(color);
            i += 1;
        }
        Canvas { width: w, height: h, pixels }
    }

    /// The pixel at `(x, y)`.
    pub fn get_px(&self, x: u32, y: u32) -> (p: Rgba)
        requires
            self.wf(),
            x < self@.w,
            y < self@.h,
        ensures
            p == self@.at(x as int, y as int),
    {
        let _len = self.pixels.len();
        proof {
            lemma_grid_index(self@.w as int, self@.h as int, x as int, y as int);
        }
        let idx: usize = (y as usize) * (self.width as usize) + (x as usize);
        self.pixels[idx]
    }

    /// Replaces the pixel at `(x, y)`; every other pixel is kept.
    pub fn set_px(&mut self, x: u32, y: u32, p: Rgba)
        requires
            old(self).wf(),
            x < old(self)@.w,
            y < old(self)@.h,
        ensures
            final(self).wf(),
            final(self)@.w == old(self)@.w,
            final(self)@.h == old(self)@.h,
            final(self)@.px == old(self)@.px.update(
                (y as int) * (old(self)@.w as int) + (x as int),
                p,
            ),
    {
        let _len = self.pixels.len();
        proof {
            lemma_grid_index(self@.w as int, self@.h as int, x as int, y as int);
        }
        let idx: usize = (y as usize) * (self.width as usize) + (x as usize);
        self.pixels[idx] = p;
    }
}

/// The row-major RGBA byte string of a pixel sequence: four bytes per pixel,
/// channels in `r, g, b, a` order.
pub open spec fn raw_of(px: Seq<Rgba>) -> Seq<u8> {
    Seq::new(
        4 * px.len(),
        |k: int|
            {
                let p = px[k / 4];
                if k % 4 == 0 {
                    p.r
                } else if k % 4 == 1 {
                    p.g
                } else if k % 4 == 2 {
                    p.b
                } else {
                    p.a
                }
            },
    )
}

/// The pixel sequence read from a row-major RGBA byte string.
pub open spec fn px_of_raw(raw: Seq<u8>) -> Seq<Rgba> {
    Seq::new(
        raw.len() / 4,
        |i: int| Rgba { r: raw[4 * i], g: raw[4 * i + 1], b: raw[4 * i + 2], a: raw[4 * i + 3] },
    )
}

/// Reading back the byte string of a pixel sequence yields the pixels.
pub proof fn lemma_raw_round_trip(px: Seq<Rgba>)
    ensures
        px_of_raw(raw_of(px)) == px,
{
    let raw = raw_of(px);
    assert(raw.len() == 4 * px.len());
    assert forall|i: int| 0 <= i < px.len() implies px_of_raw(raw)[i] == px[i] by {
        assert((4 * i) / 4 == i && (4 * i) % 4 == 0);
        assert((4 * i + 1) / 4 == i && (4 * i + 1) % 4 == 1);
        assert((4 * i + 2) / 4 == i && (4 * i + 2) % 4 == 2);
        assert((4 * i + 3) / 4 == i && (4 * i + 3) % 4 == 3);
    }
    assert(px_of_raw(raw) =~= px);
}

/// Flattens a canvas into its row-major RGBA byte string.
pub fn to_raw(c: &Canvas) -> (r: Vec<u8>)
    requires
        c.wf(),
    ensures
        r@ == raw_of(c@.px),
        r@.len() == 4 * c@.px.len(),
{
    let n = c.pixels.len();
    let mut raw: Vec<u8> = Vec::new();
    let mut i: usize = 0;
    while i < n
        invariant
            i <= n,
            n == c.pixels@.len(),
            raw@.len() == 4 * i,
            forall|k: int| 0 <= k < 4 * i ==> raw@[k] == raw_of(c.pixels@)[k],
        decreases n - i,
    {
        let p = c.pixels[i];
        raw.push(p.r);
        raw.push(p.g);
        raw.push(p.b);
        raw.push(p.a);
        proof {
            assert forall|k: int| 4 * i <= k < 4 * (i + 1) implies raw@[k] == raw_of(c.pixels@)[k]
            by {
                assert(k / 4 == i as int) by (nonlinear_arith)
                    requires
                        4 * (i as int) <= k < 4 * ((i as int) + 1),
                ;
            }
        }
        i += 1;
    }
    proof {
        assert(raw@ =~= raw_of(c.pixels@));
    }
    raw
}

/// Rebuilds a canvas from a row-major RGBA byte string and its dimensions.
pub fn from_raw(w: u32, h: u32, raw: &Vec<u8>) -> (c: Canvas)
    requires
        raw@.len() == 4 * ((w as int) * (h as int)),
    ensures
        c.wf(),
        c@.w == w,
        c@.h == h,
        c@.px == px_of_raw(raw@),
{
    let n = raw.len();
    let count: usize = n / 4;
    proof {
        assert(4 * ((w as int) * (h as int)) == 4 * ((w as int) * (h as int))) by (nonlinear_arith);
        assert((4 * ((w as int) * (h as int))) % 4 == 0 && (4 * ((w as int) * (h as int))) / 4 == (
        w as int) * (h as int)) by (nonlinear_arith);
        assert(n % 4 == 0 && n / 4 == (w as int) * (h as int));
    }
    let mut pixels: Vec<Rgba> = Vec::new();
    let mut i: usize = 0;
    while i < count
        invariant
            i <= count,
            n == raw@.len(),
            n == 4 * ((w as int) * (h as int)),
            count == (w as int) * (h as int),
            4 * count == n,
            pixels@.len() == i,
            forall|k: int| 0 <= k < i ==> pixels@[k] == px_of_raw(raw@)[k],
        decreases count - i,
    {
        let p = Rgba { r: raw[4 * i], g: raw[4 * i + 1], b: raw[4 * i + 2], a: raw[4 * i + 3] };
        pixels.push(p);
        i += 1;
    }
    proof {
        assert(pixels@ =~= px_of_raw(raw@));
        assert((w as int) * (h as int) == (w as nat) * (h as nat));
    }
    Canvas { width: w, height: h, pixels }
}

} // verus!
