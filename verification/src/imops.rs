//! The pixel work delegated to the `image` crate: codecs and resampling
//! kernels, reached through trusted wrappers over raw RGBA byte strings, and
//! verified canvas-level functions around them.
//!
//! Wrappers whose result the `image` source shows exactly (rotation, flip,
//! crop, brighten, grayscale, the blend shortcuts) state it pixel by pixel;
//! resampling and codec results are functions of the arguments alone and are
//! only named.

use vstd::prelude::*;

use crate::canvas::Canvas;
use crate::canvas::Frame;
use crate::canvas::from_raw;
use crate::canvas::grid_at;
use crate::canvas::px_of_raw;
use crate::canvas::to_raw;
use crate::color::Rgba;
use crate::formats::FilterType;
use crate::formats::ImageFormat;

verus! {

// ---------------------------------------------------------------------------
// Named results: what a call returns, as a function of its arguments alone.
// ---------------------------------------------------------------------------
/// What alpha compositing one pixel over another yields.
pub uninterp spec fn blend_of(under: Rgba, over: Rgba) -> Rgba;

/// The image that resizing to fit within `nw * nh` yields.
pub uninterp spec fn resized_of(w: nat, h: nat, px: Seq<Rgba>, nw: nat, nh: nat, f: FilterType) -> Frame;

/// The pixels that resizing to exactly `nw * nh` yields.
pub uninterp spec fn resized_exact_of(w: nat, h: nat, px: Seq<Rgba>, nw: nat, nh: nat, f: FilterType) -> Seq<Rgba>;

/// The image that the thumbnail scaling to fit within `nw * nh` yields.
pub uninterp spec fn thumbnailed_of(w: nat, h: nat, px: Seq<Rgba>, nw: nat, nh: nat) -> Frame;

/// The pixels that the thumbnail scaling to exactly `nw * nh` yields.
pub uninterp spec fn thumbnailed_exact_of(w: nat, h: nat, px: Seq<Rgba>, nw: nat, nh: nat) -> Seq<Rgba>;

/// The image that decoding a byte string in a format yields, when it decodes.
pub uninterp spec fn decoded_of(bytes: Seq<u8>, fmt: ImageFormat) -> Option<Frame>;

/// The format that content sniffing a byte string yields, when it is a
/// supported one.
pub uninterp spec fn sniffed_of(bytes: Seq<u8>) -> Option<ImageFormat>;

/// The byte string that encoding an image to a format yields, when it
/// encodes.
pub uninterp spec fn encoded_of(w: nat, h: nat, px: Seq<Rgba>, fmt: ImageFormat) -> Option<Seq<u8>>;

// ---------------------------------------------------------------------------
// Trusted wrappers.
// ---------------------------------------------------------------------------
/// Relies on image::Rgba::blend (src-over alpha compositing): a fully
/// transparent top pixel leaves the bottom pixel, a fully opaque one replaces
/// it.
#[verifier::external_body]
pub(crate) fn blend_px(under: Rgba, over: Rgba) -> (r: Rgba)
    ensures
        r == blend_of(under, over),
        over.a == 0 ==> r == under,
        over.a == 255 ==> r == over,
{
    let mut u = image::Rgba([under.r, under.g, under.b, under.a]);
    let o = image::Rgba([over.r, over.g, over.b, over.a]);
    image::Pixel::blend(&mut u, &o);
    Rgba { r: u.0[0], g: u.0[1], b: u.0[2], a: u.0[3] }
}

/// Relies on image::DynamicImage::rotate90: dimensions swap and output pixel
/// `(x, y)` is input pixel `(y, h - 1 - x)`.
#[verifier::external_body]
fn rotate90_raw(w: u32, h: u32, raw: &Vec<u8>) -> (r: Vec<u8>)
    requires
        raw@.len() == 4 * ((w as int) * (h as int)),
    ensures
        r@.len() == 4 * ((h as int) * (w as int)),
        forall|x: int, y: int|
            0 <= x < h && 0 <= y < w ==> #[trigger] grid_at(px_of_raw(r@), h as int, x, y)
                == grid_at(px_of_raw(raw@), w as int, y, h - 1 - x),
{
    let buf = image::RgbaImage::from_raw(w, h, raw.clone()).unwrap();
    image::DynamicImage::ImageRgba8(buf).rotate90().into_rgba8().into_raw()
}

/// Relies on image::DynamicImage::rotate180: dimensions are kept and output
/// pixel `(x, y)` is input pixel `(w - 1 - x, h - 1 - y)`.
#[verifier::external_body]
fn rotate180_raw(w: u32, h: u32, raw: &Vec<u8>) -> (r: Vec<u8>)
    requires
        raw@.len() == 4 * ((w as int) * (h as int)),
    ensures
        r@.len() == 4 * ((w as int) * (h as int)),
        forall|x: int, y: int|
            0 <= x < w && 0 <= y < h ==> #[trigger] grid_at(px_of_raw(r@), w as int, x, y)
                == grid_at(px_of_raw(raw@), w as int, w - 1 - x, h - 1 - y),
{
    let buf = image::RgbaImage::from_raw(w, h, raw.clone()).unwrap();
    image::DynamicImage::ImageRgba8(buf).rotate180().into_rgba8().into_raw()
}

/// Relies on image::DynamicImage::rotate270: dimensions swap and output pixel
/// `(x, y)` is input pixel `(w - 1 - y, x)`.
#[verifier::external_body]
fn rotate270_raw(w: u32, h: u32, raw: &Vec<u8>) -> (r: Vec<u8>)
    requires
        raw@.len() == 4 * ((w as int) * (h as int)),
    ensures
        r@.len() == 4 * ((h as int) * (w as int)),
        forall|x: int, y: int|
            0 <= x < h && 0 <= y < w ==> #[trigger] grid_at(px_of_raw(r@), h as int, x, y)
                == grid_at(px_of_raw(raw@), w as int, w - 1 - y, x),
{
    let buf = image::RgbaImage::from_raw(w, h, raw.clone()).unwrap();
    image::DynamicImage::ImageRgba8(buf).rotate270().into_rgba8().into_raw()
}

/// Relies on image::DynamicImage::fliph: dimensions are kept and output pixel
/// `(x, y)` is input pixel `(w - 1 - x, y)`.
#[verifier::external_body]
fn fliph_raw(w: u32, h: u32, raw: &Vec<u8>) -> (r: Vec<u8>)
    requires
        raw@.len() == 4 * ((w as int) * (h as int)),
    ensures
        r@.len() == 4 * ((w as int) * (h as int)),
        forall|x: int, y: int|
            0 <= x < w && 0 <= y < h ==> #[trigger] grid_at(px_of_raw(r@), w as int, x, y)
                == grid_at(px_of_raw(raw@), w as int, w - 1 - x, y),
{
    let buf = image::RgbaImage::from_raw(w, h, raw.clone()).unwrap();
    image::DynamicImage::ImageRgba8(buf).fliph().into_rgba8().into_raw()
}

/// Relies on image::DynamicImage::flipv: dimensions are kept and output pixel
/// `(x, y)` is input pixel `(x, h - 1 - y)`.
#[verifier::external_body]
fn flipv_raw(w: u32, h: u32, raw: &Vec<u8>) -> (r: Vec<u8>)
    requires
        raw@.len() == 4 * ((w as int) * (h as int)),
    ensures
        r@.len() == 4 * ((w as int) * (h as int)),
        forall|x: int, y: int|
            0 <= x < w && 0 <= y < h ==> #[trigger] grid_at(px_of_raw(r@), w as int, x, y)
                == grid_at(px_of_raw(raw@), w as int, x, h - 1 - y),
{
    let buf = image::RgbaImage::from_raw(w, h, raw.clone()).unwrap();
    image::DynamicImage::ImageRgba8(buf).flipv().into_rgba8().into_raw()
}

/// How brightening changes one channel: the signed sum clamped to the
/// channel range.
pub open spec fn brighten_channel(c: u8, v: i32) -> u8 {
    if c + v < 0 {
        0
    } else if c + v > 255 {
        255
    } else {
        (c + v) as u8
    }
}

/// How brightening changes one pixel: every colour channel moves by the
/// clamped amount, alpha is kept.
pub open spec fn brighten_px_spec(p: Rgba, v: i32) -> Rgba {
    Rgba {
        r: brighten_channel(p.r, v),
        g: brighten_channel(p.g, v),
        b: brighten_channel(p.b, v),
        a: p.a,
    }
}

/// Relies on image::DynamicImage::brighten: each colour channel becomes
/// `clamp(channel + value, 0, 255)` and alpha is kept. The crate computes
/// `channel + value` in `i32`, so `value` is bounded away from `i32::MAX` by
/// the largest channel value to keep that sum in range.
#[verifier::external_body]
fn brighten_raw(w: u32, h: u32, raw: &Vec<u8>, value: i32) -> (r: Vec<u8>)
    requires
        raw@.len() == 4 * ((w as int) * (h as int)),
        value <= i32::MAX - 255,
    ensures
        r@.len() == 4 * ((w as int) * (h as int)),
        forall|k: int|
            0 <= k < (w as int) * (h as int) ==> px_of_raw(r@)[k] == brighten_px_spec(
                px_of_raw(raw@)[k],
                value,
            ),
{
    let buf = image::RgbaImage::from_raw(w, h, raw.clone()).unwrap();
    image::DynamicImage::ImageRgba8(buf).brighten(value).into_rgba8().into_raw()
}

/// The luma of a pixel, as the `image` crate computes it for 8-bit channels.
pub open spec fn luma_of(p: Rgba) -> u8 {
    ((2126 * p.r + 7152 * p.g + 722 * p.b) / 10000) as u8
}

/// How graying changes one pixel: every colour channel becomes the luma,
/// alpha is kept.
pub open spec fn gray_px_spec(p: Rgba) -> Rgba {
    Rgba { r: luma_of(p), g: luma_of(p), b: luma_of(p), a: p.a }
}

/// Relies on image::DynamicImage::grayscale on an RGBA image: each pixel
/// becomes its luma `(2126 r + 7152 g + 722 b) / 10000` in every colour
/// channel, with alpha kept.
#[verifier::external_body]
fn grayscale_raw(w: u32, h: u32, raw: &Vec<u8>) -> (r: Vec<u8>)
    requires
        raw@.len() == 4 * ((w as int) * (h as int)),
    ensures
        r@.len() == 4 * ((w as int) * (h as int)),
        forall|k: int|
            0 <= k < (w as int) * (h as int) ==> px_of_raw(r@)[k] == gray_px_spec(
                px_of_raw(raw@)[k],
            ),
{
    let buf = image::RgbaImage::from_raw(w, h, raw.clone()).unwrap();
    image::DynamicImage::ImageRgba8(buf).grayscale().into_rgba8().into_raw()
}

/// Relies on image::DynamicImage::crop_imm: the rectangle is clamped to the
/// image and the output is the sub-grid it covers.
#[verifier::external_body]
fn crop_raw(w: u32, h: u32, raw: &Vec<u8>, x: u32, y: u32, cw: u32, ch: u32) -> (r: (u32, u32, Vec<
    u8,
>))
    requires
        raw@.len() == 4 * ((w as int) * (h as int)),
    ensures
        r.0 == if x <= w {
            if cw <= w - x {
                cw as int
            } else {
                w - x
            }
        } else {
            0
        },
        r.1 == if y <= h {
            if ch <= h - y {
                ch as int
            } else {
                h - y
            }
        } else {
            0
        },
        r.2@.len() == 4 * ((r.0 as int) * (r.1 as int)),
        forall|i: int, j: int|
            0 <= i < r.0 && 0 <= j < r.1 ==> #[trigger] grid_at(px_of_raw(r.2@), r.0 as int, i, j)
                == grid_at(
                px_of_raw(raw@),
                w as int,
                (if x <= w {
                    x as int
                } else {
                    w as int
                }) + i,
                (if y <= h {
                    y as int
                } else {
                    h as int
                }) + j,
            ),
{
    let buf = image::RgbaImage::from_raw(w, h, raw.clone()).unwrap();
    let out = image::DynamicImage::ImageRgba8(buf).crop_imm(x, y, cw, ch).into_rgba8();
    (out.width(), out.height(), out.into_raw())
}

/// Relies on image::DynamicImage::resize: scales to the largest size that
/// preserves the aspect ratio and fits within the bounds; both result
/// dimensions are at least 1, and matching bounds return the image unchanged.
#[verifier::external_body]
fn resize_raw(w: u32, h: u32, raw: &Vec<u8>, nw: u32, nh: u32, f: FilterType) -> (r: (u32, u32, Vec<
    u8,
>))
    requires
        raw@.len() == 4 * ((w as int) * (h as int)),
        w >= 1,
        h >= 1,
        nw >= 1,
        nh >= 1,
    ensures
        ({
            let fr = resized_of(w as nat, h as nat, px_of_raw(raw@), nw as nat, nh as nat, f);
            r.0 == fr.w && r.1 == fr.h && px_of_raw(r.2@) == fr.px
        }),
        r.2@.len() == 4 * ((r.0 as int) * (r.1 as int)),
        r.0 >= 1,
        r.1 >= 1,
        nw == w && nh == h ==> r.0 == w && r.1 == h && px_of_raw(r.2@) == px_of_raw(raw@),
{
    let ft = match f {
        FilterType::Nearest => image::imageops::FilterType::Nearest,
        FilterType::Triangle => image::imageops::FilterType::Triangle,
        FilterType::CatmullRom => image::imageops::FilterType::CatmullRom,
        FilterType::Gaussian => image::imageops::FilterType::Gaussian,
        FilterType::Lanczos3 => image::imageops::FilterType::Lanczos3,
    };
    let buf = image::RgbaImage::from_raw(w, h, raw.clone()).unwrap();
    let out = image::DynamicImage::ImageRgba8(buf).resize(nw, nh, ft).into_rgba8();
    (out.width(), out.height(), out.into_raw())
}

/// Relies on image::DynamicImage::resize_exact: scales to exactly the given
/// dimensions with the given filter.
#[verifier::external_body]
fn resize_exact_raw(w: u32, h: u32, raw: &Vec<u8>, nw: u32, nh: u32, f: FilterType) -> (r: Vec<u8>)
    requires
        raw@.len() == 4 * ((w as int) * (h as int)),
        w >= 1,
        h >= 1,
        nw >= 1,
        nh >= 1,
    ensures
        r@.len() == 4 * ((nw as int) * (nh as int)),
        px_of_raw(r@) == resized_exact_of(w as nat, h as nat, px_of_raw(raw@), nw as nat, nh as nat, f),
{
    let ft = match f {
        FilterType::Nearest => image::imageops::FilterType::Nearest,
        FilterType::Triangle => image::imageops::FilterType::Triangle,
        FilterType::CatmullRom => image::imageops::FilterType::CatmullRom,
        FilterType::Gaussian => image::imageops::FilterType::Gaussian,
        FilterType::Lanczos3 => image::imageops::FilterType::Lanczos3,
    };
    let buf = image::RgbaImage::from_raw(w, h, raw.clone()).unwrap();
    let out = image::DynamicImage::ImageRgba8(buf).resize_exact(nw, nh, ft).into_rgba8();
    out.into_raw()
}

/// Relies on image::DynamicImage::thumbnail: fast integer scaling to the
/// largest size that preserves the aspect ratio and fits within the bounds;
/// both result dimensions are at least 1.
#[verifier::external_body]
fn thumbnail_raw(w: u32, h: u32, raw: &Vec<u8>, nw: u32, nh: u32) -> (r: (u32, u32, Vec<u8>))
    requires
        raw@.len() == 4 * ((w as int) * (h as int)),
        w >= 1,
        h >= 1,
        nw >= 1,
        nh >= 1,
    ensures
        ({
            let fr = thumbnailed_of(w as nat, h as nat, px_of_raw(raw@), nw as nat, nh as nat);
            r.0 == fr.w && r.1 == fr.h && px_of_raw(r.2@) == fr.px
        }),
        r.2@.len() == 4 * ((r.0 as int) * (r.1 as int)),
        r.0 >= 1,
        r.1 >= 1,
{
    let buf = image::RgbaImage::from_raw(w, h, raw.clone()).unwrap();
    let out = image::DynamicImage::ImageRgba8(buf).thumbnail(nw, nh).into_rgba8();
    (out.width(), out.height(), out.into_raw())
}

/// Relies on image::DynamicImage::thumbnail_exact: fast integer scaling to
/// exactly the given dimensions.
#[verifier::external_body]
fn thumbnail_exact_raw(w: u32, h: u32, raw: &Vec<u8>, nw: u32, nh: u32) -> (r: Vec<u8>)
    requires
        raw@.len() == 4 * ((w as int) * (h as int)),
        w >= 1,
        h >= 1,
        nw >= 1,
        nh >= 1,
    ensures
        r@.len() == 4 * ((nw as int) * (nh as int)),
        px_of_raw(r@) == thumbnailed_exact_of(w as nat, h as nat, px_of_raw(raw@), nw as nat, nh as nat),
{
    let buf = image::RgbaImage::from_raw(w, h, raw.clone()).unwrap();
    let out = image::DynamicImage::ImageRgba8(buf).thumbnail_exact(nw, nh).into_rgba8();
    out.into_raw()
}

/// Relies on image::load_from_memory_with_format (followed by the RGBA
/// conversion): decoding either fails or yields the image the byte string
/// encodes.
#[verifier::external_body]
fn decode_raw(bytes: &Vec<u8>, fmt: ImageFormat) -> (r: Result<(u32, u32, Vec<u8>), ()>)
    ensures
        match r {
            Ok(t) => decoded_of(bytes@, fmt) == Some(
                Frame { w: t.0 as nat, h: t.1 as nat, px: px_of_raw(t.2@) },
            ) && t.2@.len() == 4 * ((t.0 as int) * (t.1 as int)),
            Err(_) => decoded_of(bytes@, fmt) is None,
        },
{
    let f = match fmt {
        ImageFormat::PNG => image::ImageFormat::Png,
        ImageFormat::JPEG => image::ImageFormat::Jpeg,
    };
    match image::load_from_memory_with_format(bytes.as_slice(), f) {
        Ok(img) => {
            let out = img.to_rgba8();
            Ok((out.width(), out.height(), out.into_raw()))
        },
        Err(_) => Err(()),
    }
}

/// Relies on image::guess_format: content sniffing depends on the bytes
/// alone; formats outside the supported set count as unrecognized.
#[verifier::external_body]
pub(crate) fn sniff_raw(bytes: &Vec<u8>) -> (r: Option<ImageFormat>)
    ensures
        r == sniffed_of(bytes@),
{
    match image::guess_format(bytes.as_slice()) {
        Ok(image::ImageFormat::Png) => Some(ImageFormat::PNG),
        Ok(image::ImageFormat::Jpeg) => Some(ImageFormat::JPEG),
        _ => None,
    }
}

/// Relies on image::DynamicImage::write_to: encoding either fails or yields
/// the byte string for exactly this pixel grid and format.
#[verifier::external_body]
fn encode_raw(w: u32, h: u32, raw: &Vec<u8>, fmt: ImageFormat) -> (r: Result<Vec<u8>, ()>)
    requires
        raw@.len() == 4 * ((w as int) * (h as int)),
        w >= 1,
        h >= 1,
    ensures
        match r {
            Ok(b) => encoded_of(w as nat, h as nat, px_of_raw(raw@), fmt) == Some(b@),
            Err(_) => encoded_of(w as nat, h as nat, px_of_raw(raw@), fmt) is None,
        },
{
    let buf = image::RgbaImage::from_raw(w, h, raw.clone()).unwrap();
    let img = image::DynamicImage::ImageRgba8(buf);
    let f = match fmt {
        ImageFormat::PNG => image::ImageFormat::Png,
        ImageFormat::JPEG => image::ImageFormat::Jpeg,
    };
    let mut cur = std::io::Cursor::new(Vec::new());
    match img.write_to(&mut cur, f) {
        Ok(_) => Ok(cur.into_inner()),
        Err(_) => Err(()),
    }
}

// ---------------------------------------------------------------------------
// Verified canvas-level functions around the wrappers.
// ---------------------------------------------------------------------------
/// Rotates a canvas 90 degrees clockwise.
pub fn rotate90_canvas(c: &Canvas) -> (r: Canvas)
    requires
        c.wf(),
    ensures
        r.wf(),
        r@.w == c@.h,
        r@.h == c@.w,
        forall|x: int, y: int|
            0 <= x < c@.h && 0 <= y < c@.w ==> #[trigger] r@.at(x, y) == c@.at(y, c@.h - 1 - x),
{
    let raw = to_raw(c);
    let out = rotate90_raw(c.width, c.height, &raw);
    proof {
        crate::canvas::lemma_raw_round_trip(c.pixels@);
    }
    from_raw(c.height, c.width, &out)
}

/// Rotates a canvas 180 degrees.
pub fn rotate180_canvas(c: &Canvas) -> (r: Canvas)
    requires
        c.wf(),
    ensures
        r.wf(),
        r@.w == c@.w,
        r@.h == c@.h,
        forall|x: int, y: int|
            0 <= x < c@.w && 0 <= y < c@.h ==> #[trigger] r@.at(x, y) == c@.at(
                c@.w - 1 - x,
                c@.h - 1 - y,
            ),
{
    let raw = to_raw(c);
    let out = rotate180_raw(c.width, c.height, &raw);
    proof {
        crate::canvas::lemma_raw_round_trip(c.pixels@);
    }
    from_raw(c.width, c.height, &out)
}

/// Rotates a canvas 270 degrees clockwise.
pub fn rotate270_canvas(c: &Canvas) -> (r: Canvas)
    requires
        c.wf(),
    ensures
        r.wf(),
        r@.w == c@.h,
        r@.h == c@.w,
        forall|x: int, y: int|
            0 <= x < c@.h && 0 <= y < c@.w ==> #[trigger] r@.at(x, y) == c@.at(c@.w - 1 - y, x),
{
    let raw = to_raw(c);
    let out = rotate270_raw(c.width, c.height, &raw);
    proof {
        crate::canvas::lemma_raw_round_trip(c.pixels@);
    }
    from_raw(c.height, c.width, &out)
}

/// Mirrors a canvas left to right.
pub fn fliph_canvas(c: &Canvas) -> (r: Canvas)
    requires
        c.wf(),
    ensures
        r.wf(),
        r@.w == c@.w,
        r@.h == c@.h,
        forall|x: int, y: int|
            0 <= x < c@.w && 0 <= y < c@.h ==> #[trigger] r@.at(x, y) == c@.at(c@.w - 1 - x, y),
{
    let raw = to_raw(c);
    let out = fliph_raw(c.width, c.height, &raw);
    proof {
        crate::canvas::lemma_raw_round_trip(c.pixels@);
    }
    from_raw(c.width, c.height, &out)
}

/// Mirrors a canvas top to bottom.
pub fn flipv_canvas(c: &Canvas) -> (r: Canvas)
    requires
        c.wf(),
    ensures
        r.wf(),
        r@.w == c@.w,
        r@.h == c@.h,
        forall|x: int, y: int|
            0 <= x < c@.w && 0 <= y < c@.h ==> #[trigger] r@.at(x, y) == c@.at(x, c@.h - 1 - y),
{
    let raw = to_raw(c);
    let out = flipv_raw(c.width, c.height, &raw);
    proof {
        crate::canvas::lemma_raw_round_trip(c.pixels@);
    }
    from_raw(c.width, c.height, &out)
}

/// Brightens a canvas by a signed amount, channel by channel.
pub fn brighten_canvas(c: &Canvas, value: i32) -> (r: Canvas)
    requires
        c.wf(),
        value <= i32::MAX - 255,
    ensures
        r.wf(),
        r@.w == c@.w,
        r@.h == c@.h,
        forall|k: int|
            0 <= k < c@.px.len() ==> r@.px[k] == brighten_px_spec(#[trigger] c@.px[k], value),
{
    let raw = to_raw(c);
    let out = brighten_raw(c.width, c.height, &raw, value);
    proof {
        crate::canvas::lemma_raw_round_trip(c.pixels@);
    }
    from_raw(c.width, c.height, &out)
}

/// Grays a canvas: every pixel becomes its luma, with alpha kept.
pub fn grayscale_canvas(c: &Canvas) -> (r: Canvas)
    requires
        c.wf(),
    ensures
        r.wf(),
        r@.w == c@.w,
        r@.h == c@.h,
        forall|k: int| 0 <= k < c@.px.len() ==> r@.px[k] == gray_px_spec(#[trigger] c@.px[k]),
{
    let raw = to_raw(c);
    let out = grayscale_raw(c.width, c.height, &raw);
    proof {
        crate::canvas::lemma_raw_round_trip(c.pixels@);
    }
    from_raw(c.width, c.height, &out)
}

/// The width that cropping at `x` with requested width `cw` keeps.
pub open spec fn crop_extent(pos: int, want: int, have: int) -> int {
    if pos <= have {
        if want <= have - pos {
            want
        } else {
            have - pos
        }
    } else {
        0
    }
}

/// The origin that cropping at `pos` uses: clamped to the image.
pub open spec fn crop_origin(pos: int, have: int) -> int {
    if pos <= have {
        pos
    } else {
        have
    }
}

/// Crops a canvas to the rectangle, clamped to the image; the result may be
/// empty.
pub fn crop_canvas(c: &Canvas, x: u32, y: u32, cw: u32, ch: u32) -> (r: Canvas)
    requires
        c.wf(),
    ensures
        r.wf(),
        r@.w == crop_extent(x as int, cw as int, c@.w as int),
        r@.h == crop_extent(y as int, ch as int, c@.h as int),
        forall|i: int, j: int|
            0 <= i < r@.w && 0 <= j < r@.h ==> #[trigger] r@.at(i, j) == c@.at(
                crop_origin(x as int, c@.w as int) + i,
                crop_origin(y as int, c@.h as int) + j,
            ),
{
    let raw = to_raw(c);
    let out = crop_raw(c.width, c.height, &raw, x, y, cw, ch);
    proof {
        crate::canvas::lemma_raw_round_trip(c.pixels@);
    }
    from_raw(out.0, out.1, &out.2)
}

/// Resizes a canvas to fit within the bounds, preserving aspect ratio.
pub fn resize_canvas(c: &Canvas, nw: u32, nh: u32, f: FilterType) -> (r: Canvas)
    requires
        c.wf(),
        c@.w >= 1,
        c@.h >= 1,
        nw >= 1,
        nh >= 1,
    ensures
        r.wf(),
        r@.w >= 1,
        r@.h >= 1,
        r@ == resized_of(c@.w, c@.h, c@.px, nw as nat, nh as nat, f),
        nw == c@.w && nh == c@.h ==> r@ == c@,
{
    let raw = to_raw(c);
    let out = resize_raw(c.width, c.height, &raw, nw, nh, f);
    proof {
        crate::canvas::lemma_raw_round_trip(c.pixels@);
    }
    let res = from_raw(out.0, out.1, &out.2);
    proof {
        assert(res@ =~= res@);
    }
    res
}

/// Resizes a canvas to exactly the given dimensions.
pub fn resize_exact_canvas(c: &Canvas, nw: u32, nh: u32, f: FilterType) -> (r: Canvas)
    requires
        c.wf(),
        c@.w >= 1,
        c@.h >= 1,
        nw >= 1,
        nh >= 1,
    ensures
        r.wf(),
        r@.w == nw,
        r@.h == nh,
        r@.px == resized_exact_of(c@.w, c@.h, c@.px, nw as nat, nh as nat, f),
{
    let raw = to_raw(c);
    let out = resize_exact_raw(c.width, c.height, &raw, nw, nh, f);
    proof {
        crate::canvas::lemma_raw_round_trip(c.pixels@);
    }
    from_raw(nw, nh, &out)
}

/// Thumbnails a canvas to fit within the bounds, preserving aspect ratio.
pub fn thumbnail_canvas(c: &Canvas, nw: u32, nh: u32) -> (r: Canvas)
    requires
        c.wf(),
        c@.w >= 1,
        c@.h >= 1,
        nw >= 1,
        nh >= 1,
    ensures
        r.wf(),
        r@.w >= 1,
        r@.h >= 1,
        r@ == thumbnailed_of(c@.w, c@.h, c@.px, nw as nat, nh as nat),
{
    let raw = to_raw(c);
    let out = thumbnail_raw(c.width, c.height, &raw, nw, nh);
    proof {
        crate::canvas::lemma_raw_round_trip(c.pixels@);
    }
    from_raw(out.0, out.1, &out.2)
}

/// Thumbnails a canvas to exactly the given dimensions.
pub fn thumbnail_exact_canvas(c: &Canvas, nw: u32, nh: u32) -> (r: Canvas)
    requires
        c.wf(),
        c@.w >= 1,
        c@.h >= 1,
        nw >= 1,
        nh >= 1,
    ensures
        r.wf(),
        r@.w == nw,
        r@.h == nh,
        r@.px == thumbnailed_exact_of(c@.w, c@.h, c@.px, nw as nat, nh as nat),
{
    let raw = to_raw(c);
    let out = thumbnail_exact_raw(c.width, c.height, &raw, nw, nh);
    proof {
        crate::canvas::lemma_raw_round_trip(c.pixels@);
    }
    from_raw(nw, nh, &out)
}

/// Decodes a byte string in a given format into a canvas.
pub fn decode_canvas(bytes: &Vec<u8>, fmt: ImageFormat) -> (r: Result<Canvas, ()>)
    ensures
        match r {
            Ok(c) => c.wf() && decoded_of(bytes@, fmt) == Some(c@),
            Err(_) => decoded_of(bytes@, fmt) is None,
        },
{
    match decode_raw(bytes, fmt) {
        Ok(t) => {
            let c = from_raw(t.0, t.1, &t.2);
            Ok(c)
        },
        Err(_) => Err(()),
    }
}

/// Encodes a canvas to a format's byte string.
pub fn encode_canvas(c: &Canvas, fmt: ImageFormat) -> (r: Result<Vec<u8>, ()>)
    requires
        c.wf(),
        c@.w >= 1,
        c@.h >= 1,
    ensures
        match r {
            Ok(b) => encoded_of(c@.w, c@.h, c@.px, fmt) == Some(b@),
            Err(_) => encoded_of(c@.w, c@.h, c@.px, fmt) is None,
        },
{
    let raw = to_raw(c);
    proof {
        crate::canvas::lemma_raw_round_trip(c.pixels@);
    }
    encode_raw(c.width, c.height, &raw, fmt)
}

} // verus!
