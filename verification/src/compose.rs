//! The verified compositing core: pasting one image onto another with
//! clipping at every edge, margin construction for borders, and the
//! alignment / tile-repeat placement of overlays.

use vstd::prelude::*;

use crate::canvas::Canvas;
use crate::canvas::Frame;
use crate::canvas::grid_at;
use crate::canvas::lemma_grid_distinct;
use crate::canvas::lemma_grid_index;
use crate::color::Rgba;
use crate::geometry::Dim;
use crate::geometry::resolve_signed;
use crate::geometry::resolve_signed_spec;
use crate::imops::blend_of;
use crate::imops::blend_px;

verus! {

/// A row-major index taken apart again: every cell index comes from exactly
/// one grid cell.
pub proof fn lemma_grid_unindex(w: int, h: int, k: int)
    requires
        w >= 1,
        0 <= k < w * h,
    ensures
        0 <= k % w < w,
        0 <= k / w < h,
        (k / w) * w + (k % w) == k,
{
    assert(0 <= k % w < w && 0 <= k / w < h && (k / w) * w + (k % w) == k) by (nonlinear_arith)
        requires
            w >= 1,
            0 <= k < w * h,
    ;
}

/// What pasting `over` onto `base` at the signed offset `(x, y)` yields:
/// within the part of the overlay that falls on the base every pixel is the
/// blend of the two, outside it the base pixel is kept. Clipping at every
/// edge is implicit: off-canvas overlay pixels touch nothing.
pub open spec fn paste_frame(base: Frame, over: Frame, x: int, y: int) -> Frame {
    Frame {
        w: base.w,
        h: base.h,
        px: Seq::new(
            base.px.len(),
            |k: int|
                {
                    let i = k % (base.w as int);
                    let j = k / (base.w as int);
                    if x <= i < x + over.w && y <= j < y + over.h {
                        blend_of(base.px[k], over.at(i - x, j - y))
                    } else {
                        base.px[k]
                    }
                },
        ),
    }
}

/// Pastes `over` onto `base` at a signed offset, blending pixel by pixel and
/// clipping whatever falls off any edge of the base.
pub fn paste(base: Canvas, over: &Canvas, x: i64, y: i64) -> (r: Canvas)
    requires
        base.wf(),
        over.wf(),
        -0x2_0000_0000 <= x <= 0x2_0000_0000,
        -0x2_0000_0000 <= y <= 0x2_0000_0000,
    ensures
        r.wf(),
        r@.w == base@.w,
        r@.h == base@.h,
        r@ == paste_frame(base@, over@, x as int, y as int),
{
    let bw = base.width;
    let bh = base.height;
    let ow = over.width;
    let oh = over.height;
    let i0: i64 = if x < 0 {
        0
    } else {
        x
    };
    let mut i1: i64 = x + ow as i64;
    if i1 > bw as i64 {
        i1 = bw as i64;
    }
    let j0: i64 = if y < 0 {
        0
    } else {
        y
    };
    let mut j1: i64 = y + oh as i64;
    if j1 > bh as i64 {
        j1 = bh as i64;
    }
    let ghost target = paste_frame(base@, over@, x as int, y as int);
    let mut out = base;
    if i0 < i1 && j0 < j1 {
        let mut j: i64 = j0;
        while j < j1
            invariant
                out.wf(),
                out@.w == base@.w,
                out@.h == base@.h,
                over.wf(),
                bw == base@.w,
                bh == base@.h,
                ow == over@.w,
                oh == over@.h,
                -0x2_0000_0000 <= x <= 0x2_0000_0000,
                -0x2_0000_0000 <= y <= 0x2_0000_0000,
                i0 == if x < 0 {
                    0
                } else {
                    x as int
                },
                i1 == if x + ow > bw {
                    bw as int
                } else {
                    x + ow
                },
                j0 == if y < 0 {
                    0
                } else {
                    y as int
                },
                j1 == if y + oh > bh {
                    bh as int
                } else {
                    y + oh
                },
                i0 < i1,
                j0 <= j <= j1,
                forall|p: int, q: int|
                    0 <= p < bw && 0 <= q < bh ==> #[trigger] grid_at(out@.px, bw as int, p, q)
                        == if i0 <= p < i1 && j0 <= q < j {
                        blend_of(
                            grid_at(base@.px, bw as int, p, q),
                            grid_at(over@.px, ow as int, p - x, q - y),
                        )
                    } else {
                        grid_at(base@.px, bw as int, p, q)
                    },
            decreases j1 - j,
        {
            let mut i: i64 = i0;
            while i < i1
                invariant
                    out.wf(),
                    out@.w == base@.w,
                    out@.h == base@.h,
                    over.wf(),
                    bw == base@.w,
                    bh == base@.h,
                    ow == over@.w,
                    oh == over@.h,
                    -0x2_0000_0000 <= x <= 0x2_0000_0000,
                    -0x2_0000_0000 <= y <= 0x2_0000_0000,
                    i0 == if x < 0 {
                        0
                    } else {
                        x as int
                    },
                    i1 == if x + ow > bw {
                        bw as int
                    } else {
                        x + ow
                    },
                    j0 == if y < 0 {
                        0
                    } else {
                        y as int
                    },
                    j1 == if y + oh > bh {
                        bh as int
                    } else {
                        y + oh
                    },
                    i0 < i1,
                    j0 <= j < j1,
                    i0 <= i <= i1,
                    forall|p: int, q: int|
                        0 <= p < bw && 0 <= q < bh ==> #[trigger] grid_at(out@.px, bw as int, p, q)
                            == if (i0 <= p < i1 && j0 <= q < j) || (q == j && i0 <= p < i) {
                            blend_of(
                                grid_at(base@.px, bw as int, p, q),
                                grid_at(over@.px, ow as int, p - x, q - y),
                            )
                        } else {
                            grid_at(base@.px, bw as int, p, q)
                        },
                decreases i1 - i,
            {
                let under = out.get_px(i as u32, j as u32);
                let top = over.get_px((i - x) as u32, (j - y) as u32);
                let blended = blend_px(under, top);
                let ghost prev = out@;
                out.set_px(i as u32, j as u32, blended);
                proof {
                    assert forall|p: int, q: int| 0 <= p < bw && 0 <= q < bh implies #[trigger]
                    grid_at(out@.px, bw as int, p, q) == if (i0 <= p < i1 && j0 <= q < j) || (q == j
                        && i0 <= p < i + 1) {
                        blend_of(
                            grid_at(base@.px, bw as int, p, q),
                            grid_at(over@.px, ow as int, p - x, q - y),
                        )
                    } else {
                        grid_at(base@.px, bw as int, p, q)
                    } by {
                        lemma_grid_index(bw as int, bh as int, p, q);
                        lemma_grid_index(bw as int, bh as int, i as int, j as int);
                        assert(out@.px == prev.px.update(
                            (j as int) * (bw as int) + (i as int),
                            blended,
                        ));
                        if p == i && q == j {
                            assert(grid_at(out@.px, bw as int, p, q) == blended);
                            assert(grid_at(prev.px, bw as int, i as int, j as int) == under);
                        } else {
                            lemma_grid_distinct(bw as int, p, q, i as int, j as int);
                            assert(grid_at(out@.px, bw as int, p, q) == grid_at(
                                prev.px,
                                bw as int,
                                p,
                                q,
                            ));
                        }
                    }
                }
                i += 1;
            }
            j += 1;
        }
    }
    proof {
        assert forall|k: int| 0 <= k < out@.px.len() implies out@.px[k] == target.px[k] by {
            if bw >= 1 {
                lemma_grid_unindex(bw as int, bh as int, k);
                let p = k % (bw as int);
                let q = k / (bw as int);
                assert(grid_at(out@.px, bw as int, p, q) == out@.px[k]);
            } else {
                assert((bw as int) * (bh as int) == 0) by (nonlinear_arith)
                    requires
                        bw == 0,
                ;
            }
        }
        assert(out@.px =~= target.px);
    }
    out
}

/// What copying `src` into `dst` at offset `(ox, oy)` yields: the rectangle
/// it covers is replaced outright, everything else is kept.
pub open spec fn copy_frame(dst: Frame, src: Frame, ox: int, oy: int) -> Frame {
    Frame {
        w: dst.w,
        h: dst.h,
        px: Seq::new(
            dst.px.len(),
            |k: int|
                {
                    let i = k % (dst.w as int);
                    let j = k / (dst.w as int);
                    if ox <= i < ox + src.w && oy <= j < oy + src.h {
                        src.at(i - ox, j - oy)
                    } else {
                        dst.px[k]
                    }
                },
        ),
    }
}

/// Copies `src` into `dst` at offset `(ox, oy)`, replacing the pixels of the
/// rectangle it covers.
pub fn copy_into(dst: Canvas, src: &Canvas, ox: u32, oy: u32) -> (r: Canvas)
    requires
        dst.wf(),
        src.wf(),
        ox + src@.w <= dst@.w,
        oy + src@.h <= dst@.h,
    ensures
        r.wf(),
        r@.w == dst@.w,
        r@.h == dst@.h,
        r@ == copy_frame(dst@, src@, ox as int, oy as int),
{
    let dw = dst.width;
    let dh = dst.height;
    let sw = src.width;
    let sh = src.height;
    let ghost target = copy_frame(dst@, src@, ox as int, oy as int);
    let mut out = dst;
    let mut j: u32 = 0;
    while j < sh
        invariant
            out.wf(),
            out@.w == dst@.w,
            out@.h == dst@.h,
            src.wf(),
            dw == dst@.w,
            dh == dst@.h,
            sw == src@.w,
            sh == src@.h,
            ox + sw <= dw,
            oy + sh <= dh,
            j <= sh,
            forall|p: int, q: int|
                0 <= p < dw && 0 <= q < dh ==> #[trigger] grid_at(out@.px, dw as int, p, q)
                    == if ox <= p < ox + sw && oy <= q < oy + j {
                    grid_at(src@.px, sw as int, p - ox, q - oy)
                } else {
                    grid_at(dst@.px, dw as int, p, q)
                },
        decreases sh - j,
    {
        let mut i: u32 = 0;
        while i < sw
            invariant
                out.wf(),
                out@.w == dst@.w,
                out@.h == dst@.h,
                src.wf(),
                dw == dst@.w,
                dh == dst@.h,
                sw == src@.w,
                sh == src@.h,
                ox + sw <= dw,
                oy + sh <= dh,
                j < sh,
                i <= sw,
                forall|p: int, q: int|
                    0 <= p < dw && 0 <= q < dh ==> #[trigger] grid_at(out@.px, dw as int, p, q)
                        == if (ox <= p < ox + sw && oy <= q < oy + j) || (q == oy + j && ox <= p < ox
                        + i) {
                        grid_at(src@.px, sw as int, p - ox, q - oy)
                    } else {
                        grid_at(dst@.px, dw as int, p, q)
                    },
            decreases sw - i,
        {
            let v = src.get_px(i, j);
            let ghost prev = out@;
            out.set_px(ox + i, oy + j, v);
            proof {
                let px: int = ox + i;
                let qx: int = oy + j;
                assert forall|p: int, q: int| 0 <= p < dw && 0 <= q < dh implies #[trigger] grid_at(
                    out@.px,
                    dw as int,
                    p,
                    q,
                ) == if (ox <= p < ox + sw && oy <= q < oy + j) || (q == oy + j && ox <= p < ox + i
                    + 1) {
                    grid_at(src@.px, sw as int, p - ox, q - oy)
                } else {
                    grid_at(dst@.px, dw as int, p, q)
                } by {
                    lemma_grid_index(dw as int, dh as int, p, q);
                    lemma_grid_index(dw as int, dh as int, px, qx);
                    assert(out@.px == prev.px.update(qx * (dw as int) + px, v));
                    if p == px && q == qx {
                        assert(grid_at(out@.px, dw as int, p, q) == v);
                    } else {
                        lemma_grid_distinct(dw as int, p, q, px, qx);
                        assert(grid_at(out@.px, dw as int, p, q) == grid_at(prev.px, dw as int, p, q));
                    }
                }
            }
            i += 1;
        }
        j += 1;
    }
    proof {
        assert forall|k: int| 0 <= k < out@.px.len() implies out@.px[k] == target.px[k] by {
            if dw >= 1 {
                lemma_grid_unindex(dw as int, dh as int, k);
                let p = k % (dw as int);
                let q = k / (dw as int);
                assert(grid_at(out@.px, dw as int, p, q) == out@.px[k]);
            } else {
                assert((dw as int) * (dh as int) == 0) by (nonlinear_arith)
                    requires
                        dw == 0,
                ;
            }
        }
        assert(out@.px =~= target.px);
    }
    out
}

/// What bordering yields: a canvas grown by the four margins, the image
/// copied in at offset `(left, top)`, and every margin pixel the fill
/// colour.
pub open spec fn border_frame(img: Frame, top: nat, right: nat, bottom: nat, left: nat, color: Rgba) -> Frame {
    Frame {
        w: img.w + left + right,
        h: img.h + top + bottom,
        px: Seq::new(
            (img.w + left + right) * (img.h + top + bottom),
            |k: int|
                {
                    let i = k % ((img.w + left + right) as int);
                    let j = k / ((img.w + left + right) as int);
                    if left <= i < left + img.w && top <= j < top + img.h {
                        img.at(i - left, j - top)
                    } else {
                        color
                    }
                },
        ),
    }
}

/// Builds the bordered canvas: the image at offset `(left, top)` inside a
/// canvas grown by the four margins, the margins filled with `color`.
/// `None` exactly when a grown dimension leaves the pixel range.
pub fn add_border(img: &Canvas, top: u32, right: u32, bottom: u32, left: u32, color: Rgba) -> (r:
    Option<Canvas>)
    requires
        img.wf(),
    ensures
        r is Some <==> img@.w + left + right <= u32::MAX && img@.h + top + bottom <= u32::MAX,
        match r {
            Some(c) => c.wf() && c@ == border_frame(
                img@,
                top as nat,
                right as nat,
                bottom as nat,
                left as nat,
                color,
            ),
            None => true,
        },
{
    let nw64: u64 = img.width as u64 + left as u64 + right as u64;
    let nh64: u64 = img.height as u64 + top as u64 + bottom as u64;
    if nw64 > u32::MAX as u64 || nh64 > u32::MAX as u64 {
        return None;
    }
    let nw: u32 = nw64 as u32;
    let nh: u32 = nh64 as u32;
    let ghost target = border_frame(img@, top as nat, right as nat, bottom as nat, left as nat, color);
    let blank = Canvas::filled(nw, nh, color);
    let out = copy_into(blank, img, left, top);
    proof {
        assert forall|k: int| 0 <= k < out@.px.len() implies out@.px[k] == target.px[k] by {
            if nw >= 1 {
                lemma_grid_unindex(nw as int, nh as int, k);
                let p = k % (nw as int);
                let q = k / (nw as int);
                assert(grid_at(out@.px, nw as int, p, q) == out@.px[k]);
                lemma_grid_index(nw as int, nh as int, p, q);
            } else {
                assert((nw as int) * (nh as int) == 0) by (nonlinear_arith)
                    requires
                        nw == 0,
                ;
            }
        }
        assert(out@.px =~= target.px);
    }
    Some(out)
}

/// Signed halving, truncated toward zero, as the centring arithmetic
/// computes it.
pub open spec fn div2_trunc(n: int) -> int {
    if n >= 0 {
        n / 2
    } else {
        -((-n) / 2)
    }
}

/// The effective placement offset on one axis: an alignment directive, when
/// present, overrides the dimension directive (start flush to 0, end flush
/// to the far edge, anything else centred); the result is clamped to
/// `[-over, base]`.
pub open spec fn axis_offset(base: u32, over: u32, d: Dim, align: Option<i8>) -> int {
    let raw: int = match align {
        Option::Some(a) => if a == -1 {
            0
        } else if a == 1 {
            base - over
        } else {
            div2_trunc(base - over)
        },
        Option::None => resolve_signed_spec(base, d),
    };
    if raw < -(over as int) {
        -(over as int)
    } else if raw > base {
        base as int
    } else {
        raw
    }
}

/// Computes the effective placement offset on one axis.
pub fn resolve_axis(base: u32, over: u32, d: Dim, align: Option<i8>) -> (r: i64)
    requires
        d.wf(),
    ensures
        r == axis_offset(base, over, d, align),
        -(over as int) <= r <= base as int,
{
    let raw: i64 = match align {
        Option::Some(a) => {
            if a == -1 {
                0
            } else if a == 1 {
                base as i64 - over as i64
            } else {
                let diff: i64 = base as i64 - over as i64;
                if diff >= 0 {
                    ((diff as u64) / 2) as i64
                } else {
                    -((((-diff) as u64) / 2) as i64)
                }
            }
        },
        Option::None => resolve_signed(base, d),
    };
    let low: i64 = -(over as i64);
    if raw < low {
        low
    } else if raw > base as i64 {
        base as i64
    } else {
        raw
    }
}

/// The paste origins of a tile sweep: from `x0`, stepping by `step`, while
/// still short of `limit`.
pub open spec fn tile_starts(x0: int, step: int, limit: int) -> Seq<int>
    decreases (if limit - x0 >= 0 { limit - x0 } else { 0 }),
    when step >= 1
{
    if x0 >= limit {
        Seq::empty()
    } else {
        seq![x0] + tile_starts(x0 + step, step, limit)
    }
}

/// A column of pastes: one paste per origin in `ys`, in order, at fixed `x`.
pub open spec fn paste_ys(base: Frame, over: Frame, x: int, ys: Seq<int>) -> Frame
    decreases ys.len(),
{
    if ys.len() == 0 {
        base
    } else {
        paste_ys(paste_frame(base, over, x, ys[0]), over, x, ys.drop_first())
    }
}

/// A sweep of paste columns: for each origin in `xs`, in order, the whole
/// column `ys`.
pub open spec fn paste_tiles(base: Frame, over: Frame, xs: Seq<int>, ys: Seq<int>) -> Frame
    decreases xs.len(),
{
    if xs.len() == 0 {
        base
    } else {
        paste_tiles(paste_ys(base, over, xs[0], ys), over, xs.drop_first(), ys)
    }
}

/// What overlaying yields: per axis the effective offset, then one paste per
/// origin of the sweep; a repeating axis steps by the overlay extent while
/// short of the base extent, a fixed axis contributes its single offset.
pub open spec fn overlay_frame(
    base: Frame,
    over: Frame,
    xd: Dim,
    halign: Option<i8>,
    hrep: bool,
    yd: Dim,
    valign: Option<i8>,
    vrep: bool,
) -> Frame {
    let x = axis_offset(base.w as u32, over.w as u32, xd, halign);
    let y = axis_offset(base.h as u32, over.h as u32, yd, valign);
    let xs = if hrep {
        tile_starts(x, over.w as int, base.w as int)
    } else {
        seq![x]
    };
    let ys = if vrep {
        tile_starts(y, over.h as int, base.h as int)
    } else {
        seq![y]
    };
    paste_tiles(base, over, xs, ys)
}

/// One column of the sweep: pastes at fixed `x`, either once at `y` or
/// repeating down the base.
fn paste_column(base: Canvas, over: &Canvas, x: i64, y: i64, vrep: bool) -> (r: Canvas)
    requires
        base.wf(),
        over.wf(),
        over@.h >= 1,
        -0x1_0000_0000 <= x <= 0x2_0000_0000,
        -0x1_0000_0000 <= y <= 0x1_0000_0000,
    ensures
        r.wf(),
        r@.w == base@.w,
        r@.h == base@.h,
        r@ == paste_ys(
            base@,
            over@,
            x as int,
            if vrep {
                tile_starts(y as int, over@.h as int, base@.h as int)
            } else {
                seq![y as int]
            },
        ),
{
    let oh = over.height;
    let bh = base.height;
    if vrep {
        let ghost target = paste_ys(base@, over@, x as int, tile_starts(y as int, oh as int, bh as int));
        let mut out = base;
        let mut yj: i64 = y;
        while yj < bh as i64
            invariant
                out.wf(),
                out@.w == base@.w,
                out@.h == base@.h,
                over.wf(),
                oh == over@.h,
                bh == base@.h,
                oh >= 1,
                -0x1_0000_0000 <= x <= 0x2_0000_0000,
                -0x1_0000_0000 <= yj <= 0x2_0000_0000,
                paste_ys(out@, over@, x as int, tile_starts(yj as int, oh as int, bh as int))
                    == target,
            decreases (if bh as int - yj >= 0 { bh as int - yj } else { 0 }),
        {
            let ghost s = tile_starts(yj as int, oh as int, bh as int);
            let ghost rest = tile_starts(yj + oh, oh as int, bh as int);
            proof {
                assert(s == seq![yj as int] + rest);
                assert(s[0] == yj as int);
                assert(s.drop_first() =~= rest);
            }
            out = paste(out, over, x, yj);
            yj = yj + oh as i64;
        }
        proof {
            assert(paste_ys(out@, over@, x as int, tile_starts(yj as int, oh as int, bh as int))
                == out@);
        }
        out
    } else {
        let r = paste(base, over, x, y);
        proof {
            let s = seq![y as int];
            let pf = paste_frame(base@, over@, x as int, y as int);
            assert(s[0] == y as int);
            assert(s.drop_first() =~= Seq::<int>::empty());
            assert(paste_ys(pf, over@, x as int, Seq::<int>::empty()) == pf);
            assert(paste_ys(base@, over@, x as int, s) == paste_ys(
                pf,
                over@,
                x as int,
                s.drop_first(),
            ));
        }
        r
    }
}

/// Computes the placement of `over` onto `base` from the per-axis directives
/// and pastes it, repeating along each axis on request; regions falling
/// outside the base are clipped.
pub fn overlay_onto(
    base: Canvas,
    over: &Canvas,
    xd: Dim,
    halign: Option<i8>,
    hrep: bool,
    yd: Dim,
    valign: Option<i8>,
    vrep: bool,
) -> (r: Canvas)
    requires
        base.wf(),
        over.wf(),
        over@.w >= 1,
        over@.h >= 1,
        xd.wf(),
        yd.wf(),
    ensures
        r.wf(),
        r@.w == base@.w,
        r@.h == base@.h,
        r@ == overlay_frame(base@, over@, xd, halign, hrep, yd, valign, vrep),
{
    let bw = base.width;
    let bh = base.height;
    let ow = over.width;
    let x = resolve_axis(bw, ow, xd, halign);
    let y = resolve_axis(bh, over.height, yd, valign);
    let ghost ys = if vrep {
        tile_starts(y as int, over@.h as int, base@.h as int)
    } else {
        seq![y as int]
    };
    if hrep {
        let ghost target = paste_tiles(base@, over@, tile_starts(x as int, ow as int, bw as int), ys);
        let mut out = base;
        let mut xi: i64 = x;
        while xi < bw as i64
            invariant
                out.wf(),
                out@.w == base@.w,
                out@.h == base@.h,
                over.wf(),
                ow == over@.w,
                bw == base@.w,
                bh == base@.h,
                ow >= 1,
                over@.h >= 1,
                -0x1_0000_0000 <= xi <= 0x2_0000_0000,
                -0x1_0000_0000 <= y <= 0x1_0000_0000,
                ys == if vrep {
                    tile_starts(y as int, over@.h as int, base@.h as int)
                } else {
                    seq![y as int]
                },
                paste_tiles(out@, over@, tile_starts(xi as int, ow as int, bw as int), ys)
                    == target,
            decreases (if bw as int - xi >= 0 { bw as int - xi } else { 0 }),
        {
            let ghost s = tile_starts(xi as int, ow as int, bw as int);
            let ghost rest = tile_starts(xi + ow, ow as int, bw as int);
            let ghost prev = out@;
            proof {
                assert(s == seq![xi as int] + rest);
                assert(s[0] == xi as int);
                assert(s.drop_first() =~= rest);
                assert(paste_tiles(prev, over@, s, ys) == paste_tiles(
                    paste_ys(prev, over@, xi as int, ys),
                    over@,
                    rest,
                    ys,
                ));
            }
            out = paste_column(out, over, xi, y, vrep);
            proof {
                if vrep {
                    assert(tile_starts(y as int, over@.h as int, prev.h as int) == ys);
                }
                assert(out@ == paste_ys(prev, over@, xi as int, ys));
            }
            xi = xi + ow as i64;
        }
        proof {
            assert(paste_tiles(
                out@,
                over@,
                tile_starts(xi as int, ow as int, bw as int),
                ys,
            ) == out@);
        }
        out
    } else {
        let r = paste_column(base, over, x, y, vrep);
        proof {
            let s = seq![x as int];
            let py = paste_ys(base@, over@, x as int, ys);
            assert(s[0] == x as int);
            assert(s.drop_first() =~= Seq::<int>::empty());
            assert(paste_tiles(py, over@, Seq::<int>::empty(), ys) == py);
            assert(paste_tiles(base@, over@, s, ys) == paste_tiles(
                py,
                over@,
                s.drop_first(),
                ys,
            ));
        }
        r
    }
}

} // verus!
