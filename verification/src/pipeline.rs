//! The deferred transformation pipeline: a builder accumulates an ordered
//! queue of operations against a not-yet-available image; an executor drains
//! the queue in call order against the resolved image, short-circuiting on
//! the first failure, and hands the result to the output encoder.
//!
//! Pixel work with fractional parameters (blur, contrast, sharpen) and the
//! joining of a second pipeline's image are outside work: the executor stops
//! and names what it needs, the host performs it and hands the value back.

use vstd::prelude::*;

use crate::canvas::Canvas;
use crate::canvas::Frame;
use crate::canvas::grid_at;
use crate::color::parse_color;
use crate::color::parse_color_bytes;
use vstd::string::StrSliceExecFns;
use vstd::string::StringSliceAdditionalSpecFns;
use crate::compose::add_border;
use crate::compose::border_frame;
use crate::compose::lemma_grid_unindex;
use crate::compose::overlay_frame;
use crate::compose::overlay_onto;
use crate::formats::FilterType;
use crate::formats::ImageFormat;
use crate::geometry::Dim;
use crate::geometry::resolve;
use crate::geometry::resolve_signed;
use crate::geometry::resolve_signed_spec;
use crate::geometry::resolve_spec;
use crate::headers::Headers;
use crate::headers::sbytes;
use crate::headers::without_key;
use crate::imops::brighten_canvas;
use crate::imops::brighten_px_spec;
use crate::imops::crop_canvas;
use crate::imops::crop_extent;
use crate::imops::crop_origin;
use crate::imops::decode_canvas;
use crate::imops::decoded_of;
use crate::imops::encode_canvas;
use crate::imops::encoded_of;
use crate::imops::fliph_canvas;
use crate::imops::flipv_canvas;
use crate::imops::gray_px_spec;
use crate::imops::grayscale_canvas;
use crate::imops::resize_canvas;
use crate::imops::resize_exact_canvas;
use crate::imops::resized_exact_of;
use crate::imops::resized_of;
use crate::imops::rotate180_canvas;
use crate::imops::rotate270_canvas;
use crate::imops::rotate90_canvas;
use crate::imops::sniffed_of;
use crate::imops::thumbnail_canvas;
use crate::imops::thumbnail_exact_canvas;
use crate::imops::thumbnailed_exact_of;
use crate::imops::thumbnailed_of;

verus! {

broadcast use vstd::std_specs::vec::axiom_vec_index_decreases;

/// Why a pipeline failed; the first failure anywhere in the chain is
/// terminal.
#[derive(Clone, Copy, Debug, PartialEq, Eq, Structural)]
pub enum PipeError {
    /// A colour string was not 6 or 8 hex digits.
    BadColor,
    /// A transform asked for a zero or out-of-range dimension.
    BadDimensions,
    /// A rotation angle other than 90, 180 or 270.
    BadRotation,
    /// The source bytes did not decode in their format.
    Decode,
    /// The image did not encode to the requested format.
    Encode,
    /// No explicit format, and content sniffing found no supported one.
    UnknownFormat,
}

impl PipeError {
    /// The description of each failure.
    pub open spec fn message_spec(self) -> Seq<u8> {
        match self {
            PipeError::BadColor => "Only hex colors currently accepted".spec_bytes(),
            PipeError::BadDimensions => "Image dimension out of range".spec_bytes(),
            PipeError::BadRotation => "Can only rotate 90, 180, or 270".spec_bytes(),
            PipeError::Decode => "Could not decode the source image".spec_bytes(),
            PipeError::Encode => "Could not encode the image".spec_bytes(),
            PipeError::UnknownFormat => "No supported image format recognized".spec_bytes(),
        }
    }

    /// A short description of the failure.
    pub fn message(&self) -> (r: &'static str)
        ensures
            r.spec_bytes() == self.message_spec(),
    {
        match self {
            PipeError::BadColor => "Only hex colors currently accepted",
            PipeError::BadDimensions => "Image dimension out of range",
            PipeError::BadRotation => "Can only rotate 90, 180, or 270",
            PipeError::Decode => "Could not decode the source image",
            PipeError::Encode => "Could not encode the image",
            PipeError::UnknownFormat => "No supported image format recognized",
        }
    }
}

/// The working value threaded through the pipeline: pixels, the header set
/// that came with the source, and the source format tag.
#[derive(Debug)]
pub struct ImageState {
    pub canvas: Canvas,
    pub headers: Headers,
    pub format: ImageFormat,
}

/// The mathematical value of an image state.
pub ghost struct StateModel {
    pub img: Frame,
    pub headers: Seq<(Seq<u8>, Seq<u8>)>,
    pub format: ImageFormat,
}

impl View for ImageState {
    type V = StateModel;

    open spec fn view(&self) -> StateModel {
        StateModel { img: self.canvas@, headers: self.headers@, format: self.format }
    }
}

impl ImageState {
    /// Validity: a consistent pixel grid with both dimensions positive.
    pub open spec fn wf(self) -> bool {
        self.canvas.wf() && self.canvas@.w >= 1 && self.canvas@.h >= 1
    }
}

/// Pixel work with fractional parameters, performed by the host: the
/// magnitudes are carried in thousandths.
#[derive(Clone, Copy, Debug, PartialEq, Eq, Structural)]
pub enum FilterOp {
    /// Gaussian blur; `sigma_milli` is the sigma in thousandths.
    Blur { sigma_milli: u32 },
    /// Contrast adjustment; `amount_milli` is the signed amount in
    /// thousandths.
    Contrast { amount_milli: i32 },
    /// Unsharp mask; `sigma_milli` is the sigma in thousandths.
    Sharpen { sigma_milli: u32, threshold: i32 },
}

/// One queued transformation.
#[derive(Debug)]
pub enum Op {
    Border { top: Dim, right: Dim, bottom: Dim, left: Dim, color: Vec<u8> },
    Brighten { value: i32 },
    Crop { x: u32, y: u32, width: u32, height: u32 },
    Filter { op: FilterOp },
    Flip { horizontal: bool },
    Grayscale,
    Overlay { x: Dim, halign: Option<i8>, hrepeat: bool, y: Dim, valign: Option<i8>, vrepeat: bool },
    Resize { width: Dim, height: Dim, exact: bool, filter: Option<FilterType> },
    Rotate { degrees: u32 },
    Thumbnail { width: Dim, height: Dim, exact: bool },
}

/// Validity of one queued operation: its directives are well-formed.
pub open spec fn op_wf(op: Op) -> bool {
    match op {
        Op::Border { top, right, bottom, left, .. } => top.wf() && right.wf() && bottom.wf()
            && left.wf(),
        Op::Brighten { value } => value <= i32::MAX - 255,
        Op::Overlay { x, y, .. } => x.wf() && y.wf(),
        Op::Resize { width, height, .. } => width.wf() && height.wf(),
        Op::Thumbnail { width, height, .. } => width.wf() && height.wf(),
        _ => true,
    }
}

/// Whether the executor can apply an operation by itself: everything but the
/// host-performed filters and the join of a second image.
pub open spec fn is_pure(op: Op) -> bool {
    !(op matches Op::Filter { .. }) && !(op matches Op::Overlay { .. })
}

/// What one pure operation yields from a state, or why it fails.
pub open spec fn apply_op_spec(s: StateModel, op: Op) -> Result<StateModel, PipeError> {
    match op {
        Op::Border { top, right, bottom, left, color } => match parse_color(color@) {
            Option::None => Err(PipeError::BadColor),
            Option::Some(col) => {
                let t = resolve_spec(s.img.h as u32, top);
                let rr = resolve_spec(s.img.w as u32, right);
                let bb = resolve_spec(s.img.h as u32, bottom);
                let ll = resolve_spec(s.img.w as u32, left);
                if resolve_signed_spec(s.img.h as u32, top) < 0 || resolve_signed_spec(
                    s.img.w as u32,
                    right,
                ) < 0 || resolve_signed_spec(s.img.h as u32, bottom) < 0 || resolve_signed_spec(
                    s.img.w as u32,
                    left,
                ) < 0 {
                    Err(PipeError::BadDimensions)
                } else if s.img.w + ll + rr > u32::MAX || s.img.h + t + bb > u32::MAX {
                    Err(PipeError::BadDimensions)
                } else {
                    Ok(
                        StateModel {
                            img: border_frame(
                                s.img,
                                t as nat,
                                rr as nat,
                                bb as nat,
                                ll as nat,
                                col,
                            ),
                            ..s
                        },
                    )
                }
            },
        },
        Op::Brighten { value } => Ok(
            StateModel {
                img: Frame {
                    w: s.img.w,
                    h: s.img.h,
                    px: Seq::new(s.img.px.len(), |k: int| brighten_px_spec(s.img.px[k], value)),
                },
                ..s
            },
        ),
        Op::Crop { x, y, width, height } => {
            let cw = crop_extent(x as int, width as int, s.img.w as int);
            let ch = crop_extent(y as int, height as int, s.img.h as int);
            let ox = crop_origin(x as int, s.img.w as int);
            let oy = crop_origin(y as int, s.img.h as int);
            if cw == 0 || ch == 0 {
                Err(PipeError::BadDimensions)
            } else {
                Ok(
                    StateModel {
                        img: Frame {
                            w: cw as nat,
                            h: ch as nat,
                            px: Seq::new((cw * ch) as nat, |k: int| s.img.at(ox + k % cw, oy + k / cw)),
                        },
                        ..s
                    },
                )
            }
        },
        Op::Flip { horizontal } => Ok(
            StateModel {
                img: Frame {
                    w: s.img.w,
                    h: s.img.h,
                    px: Seq::new(
                        s.img.px.len(),
                        |k: int|
                            if horizontal {
                                s.img.at(s.img.w - 1 - k % (s.img.w as int), k / (s.img.w as int))
                            } else {
                                s.img.at(k % (s.img.w as int), s.img.h - 1 - k / (s.img.w as int))
                            },
                    ),
                },
                ..s
            },
        ),
        Op::Grayscale => Ok(
            StateModel {
                img: Frame {
                    w: s.img.w,
                    h: s.img.h,
                    px: Seq::new(s.img.px.len(), |k: int| gray_px_spec(s.img.px[k])),
                },
                ..s
            },
        ),
        Op::Resize { width, height, exact, filter } => {
            let f = match filter {
                Option::Some(f) => f,
                Option::None => FilterType::Lanczos3,
            };
            let rw = resolve_spec(s.img.w as u32, width);
            let rh = resolve_spec(s.img.h as u32, height);
            if rw == 0 || rh == 0 {
                Err(PipeError::BadDimensions)
            } else if exact {
                Ok(
                    StateModel {
                        img: Frame {
                            w: rw as nat,
                            h: rh as nat,
                            px: resized_exact_of(s.img.w, s.img.h, s.img.px, rw as nat, rh as nat, f),
                        },
                        ..s
                    },
                )
            } else {
                Ok(
                    StateModel {
                        img: resized_of(s.img.w, s.img.h, s.img.px, rw as nat, rh as nat, f),
                        ..s
                    },
                )
            }
        },
        Op::Rotate { degrees } => {
            if degrees == 90 {
                Ok(
                    StateModel {
                        img: Frame {
                            w: s.img.h,
                            h: s.img.w,
                            px: Seq::new(
                                s.img.px.len(),
                                |k: int|
                                    s.img.at(
                                        k / (s.img.h as int),
                                        s.img.h - 1 - k % (s.img.h as int),
                                    ),
                            ),
                        },
                        ..s
                    },
                )
            } else if degrees == 180 {
                Ok(
                    StateModel {
                        img: Frame {
                            w: s.img.w,
                            h: s.img.h,
                            px: Seq::new(
                                s.img.px.len(),
                                |k: int|
                                    s.img.at(
                                        s.img.w - 1 - k % (s.img.w as int),
                                        s.img.h - 1 - k / (s.img.w as int),
                                    ),
                            ),
                        },
                        ..s
                    },
                )
            } else if degrees == 270 {
                Ok(
                    StateModel {
                        img: Frame {
                            w: s.img.h,
                            h: s.img.w,
                            px: Seq::new(
                                s.img.px.len(),
                                |k: int|
                                    s.img.at(
                                        s.img.w - 1 - k / (s.img.h as int),
                                        k % (s.img.h as int),
                                    ),
                            ),
                        },
                        ..s
                    },
                )
            } else {
                Err(PipeError::BadRotation)
            }
        },
        Op::Thumbnail { width, height, exact } => {
            let rw = resolve_spec(s.img.w as u32, width);
            let rh = resolve_spec(s.img.h as u32, height);
            if rw == 0 || rh == 0 {
                Err(PipeError::BadDimensions)
            } else if exact {
                Ok(
                    StateModel {
                        img: Frame {
                            w: rw as nat,
                            h: rh as nat,
                            px: thumbnailed_exact_of(s.img.w, s.img.h, s.img.px, rw as nat, rh as nat),
                        },
                        ..s
                    },
                )
            } else {
                Ok(
                    StateModel {
                        img: thumbnailed_of(s.img.w, s.img.h, s.img.px, rw as nat, rh as nat),
                        ..s
                    },
                )
            }
        },
        _ => Ok(s),
    }
}

/// Applies one pure operation to a state.
fn apply_op(state: ImageState, op: &Op) -> (r: Result<ImageState, PipeError>)
    requires
        state.wf(),
        op_wf(*op),
        is_pure(*op),
    ensures
        match r {
            Ok(s2) => s2.wf() && apply_op_spec(state@, *op) == Ok::<StateModel, PipeError>(s2@),
            Err(e) => apply_op_spec(state@, *op) == Err::<StateModel, PipeError>(e),
        },
{
    let ImageState { canvas, headers, format } = state;
    match op {
        Op::Border { top, right, bottom, left, color } => {
            match parse_color_bytes(color.as_slice()) {
                Err(_) => Err(PipeError::BadColor),
                Ok(col) => {
                    let neg = resolve_signed(canvas.height, *top) < 0 || resolve_signed(
                        canvas.width,
                        *right,
                    ) < 0 || resolve_signed(canvas.height, *bottom) < 0 || resolve_signed(
                        canvas.width,
                        *left,
                    ) < 0;
                    if neg {
                        return Err(PipeError::BadDimensions);
                    }
                    let t = resolve(canvas.height, *top);
                    let rr = resolve(canvas.width, *right);
                    let bb = resolve(canvas.height, *bottom);
                    let ll = resolve(canvas.width, *left);
                    match add_border(&canvas, t, rr, bb, ll, col) {
                        None => Err(PipeError::BadDimensions),
                        Some(c) => Ok(ImageState { canvas: c, headers, format }),
                    }
                },
            }
        },
        Op::Brighten { value } => {
            let out = brighten_canvas(&canvas, *value);
            proof {
                assert(out@.px =~= Seq::new(
                    canvas@.px.len(),
                    |k: int| brighten_px_spec(canvas@.px[k], *value),
                ));
            }
            Ok(ImageState { canvas: out, headers, format })
        },
        Op::Crop { x, y, width, height } => {
            let out = crop_canvas(&canvas, *x, *y, *width, *height);
            if out.width == 0 || out.height == 0 {
                Err(PipeError::BadDimensions)
            } else {
                proof {
                    let cw = crop_extent(*x as int, *width as int, canvas@.w as int);
                    let ch = crop_extent(*y as int, *height as int, canvas@.h as int);
                    let ox = crop_origin(*x as int, canvas@.w as int);
                    let oy = crop_origin(*y as int, canvas@.h as int);
                    let spx = Seq::new(
                        (cw * ch) as nat,
                        |k: int| canvas@.at(ox + k % cw, oy + k / cw),
                    );
                    assert forall|k: int| 0 <= k < out@.px.len() implies out@.px[k] == spx[k] by {
                        lemma_grid_unindex(cw, ch, k);
                        assert(out@.at(k % cw, k / cw) == grid_at(out@.px, cw, k % cw, k / cw));
                        assert(grid_at(out@.px, cw, k % cw, k / cw) == out@.px[k]);
                    }
                    assert(out@.px =~= spx);
                }
                Ok(ImageState { canvas: out, headers, format })
            }
        },
        Op::Flip { horizontal } => {
            let out = if *horizontal {
                fliph_canvas(&canvas)
            } else {
                flipv_canvas(&canvas)
            };
            proof {
                let w = canvas@.w as int;
                let spx = Seq::new(
                    canvas@.px.len(),
                    |k: int|
                        if *horizontal {
                            canvas@.at(canvas@.w - 1 - k % w, k / w)
                        } else {
                            canvas@.at(k % w, canvas@.h - 1 - k / w)
                        },
                );
                assert forall|k: int| 0 <= k < out@.px.len() implies out@.px[k] == spx[k] by {
                    lemma_grid_unindex(w, canvas@.h as int, k);
                    assert(out@.at(k % w, k / w) == grid_at(out@.px, w, k % w, k / w));
                    assert(grid_at(out@.px, w, k % w, k / w) == out@.px[k]);
                }
                assert(out@.px =~= spx);
            }
            Ok(ImageState { canvas: out, headers, format })
        },
        Op::Grayscale => {
            let out = grayscale_canvas(&canvas);
            proof {
                assert(out@.px =~= Seq::new(
                    canvas@.px.len(),
                    |k: int| gray_px_spec(canvas@.px[k]),
                ));
            }
            Ok(ImageState { canvas: out, headers, format })
        },
        Op::Resize { width, height, exact, filter } => {
            let f = match filter {
                Some(f) => *f,
                None => FilterType::Lanczos3,
            };
            let rw = resolve(canvas.width, *width);
            let rh = resolve(canvas.height, *height);
            if rw == 0 || rh == 0 {
                Err(PipeError::BadDimensions)
            } else if *exact {
                let out = resize_exact_canvas(&canvas, rw, rh, f);
                Ok(ImageState { canvas: out, headers, format })
            } else {
                let out = resize_canvas(&canvas, rw, rh, f);
                Ok(ImageState { canvas: out, headers, format })
            }
        },
        Op::Rotate { degrees } => {
            if *degrees == 90 {
                let out = rotate90_canvas(&canvas);
                proof {
                    let hh = canvas@.h as int;
                    let spx = Seq::new(
                        canvas@.px.len(),
                        |k: int| canvas@.at(k / hh, canvas@.h - 1 - k % hh),
                    );
                    assert forall|k: int| 0 <= k < out@.px.len() implies out@.px[k] == spx[k] by {
                        lemma_grid_unindex(hh, canvas@.w as int, k);
                        assert(out@.at(k % hh, k / hh) == grid_at(out@.px, hh, k % hh, k / hh));
                        assert(grid_at(out@.px, hh, k % hh, k / hh) == out@.px[k]);
                    }
                    assert(out@.px =~= spx);
                    assert((canvas@.h as int) * (canvas@.w as int) == (canvas@.w as int) * (
                    canvas@.h as int)) by (nonlinear_arith);
                }
                Ok(ImageState { canvas: out, headers, format })
            } else if *degrees == 180 {
                let out = rotate180_canvas(&canvas);
                proof {
                    let w = canvas@.w as int;
                    let spx = Seq::new(
                        canvas@.px.len(),
                        |k: int| canvas@.at(canvas@.w - 1 - k % w, canvas@.h - 1 - k / w),
                    );
                    assert forall|k: int| 0 <= k < out@.px.len() implies out@.px[k] == spx[k] by {
                        lemma_grid_unindex(w, canvas@.h as int, k);
                        assert(out@.at(k % w, k / w) == grid_at(out@.px, w, k % w, k / w));
                        assert(grid_at(out@.px, w, k % w, k / w) == out@.px[k]);
                    }
                    assert(out@.px =~= spx);
                }
                Ok(ImageState { canvas: out, headers, format })
            } else if *degrees == 270 {
                let out = rotate270_canvas(&canvas);
                proof {
                    let hh = canvas@.h as int;
                    let spx = Seq::new(
                        canvas@.px.len(),
                        |k: int| canvas@.at(canvas@.w - 1 - k / hh, k % hh),
                    );
                    assert forall|k: int| 0 <= k < out@.px.len() implies out@.px[k] == spx[k] by {
                        lemma_grid_unindex(hh, canvas@.w as int, k);
                        assert(out@.at(k % hh, k / hh) == grid_at(out@.px, hh, k % hh, k / hh));
                        assert(grid_at(out@.px, hh, k % hh, k / hh) == out@.px[k]);
                    }
                    assert(out@.px =~= spx);
                    assert((canvas@.h as int) * (canvas@.w as int) == (canvas@.w as int) * (
                    canvas@.h as int)) by (nonlinear_arith);
                }
                Ok(ImageState { canvas: out, headers, format })
            } else {
                Err(PipeError::BadRotation)
            }
        },
        Op::Thumbnail { width, height, exact } => {
            let rw = resolve(canvas.width, *width);
            let rh = resolve(canvas.height, *height);
            if rw == 0 || rh == 0 {
                Err(PipeError::BadDimensions)
            } else if *exact {
                let out = thumbnail_exact_canvas(&canvas, rw, rh);
                Ok(ImageState { canvas: out, headers, format })
            } else {
                let out = thumbnail_canvas(&canvas, rw, rh);
                Ok(ImageState { canvas: out, headers, format })
            }
        },
        Op::Filter { .. } | Op::Overlay { .. } => {
            proof {
                assert(false);
            }
            Err(PipeError::BadRotation)
        },
    }
}

/// The image source a pipeline starts from: a synthesized filled canvas, or
/// fetched bytes not yet decoded.
#[derive(Debug)]
pub enum Source {
    /// A blank canvas of the given size filled with a hex colour; the colour
    /// is parsed only when the pipeline runs.
    Blank { width: u32, height: u32, color: String },
    /// Encoded bytes with the headers they arrived with; decoded, and content
    /// sniffed when no format is given, only when the pipeline runs.
    Encoded { bytes: Vec<u8>, format: Option<ImageFormat>, headers: Headers },
}

/// What resolving a source yields: the initial image state, or why it fails.
pub open spec fn source_spec(src: Source) -> Result<StateModel, PipeError> {
    match src {
        Source::Blank { width, height, color } => match parse_color(sbytes(color)) {
            Option::None => Err(PipeError::BadColor),
            Option::Some(c) => {
                if width == 0 || height == 0 {
                    Err(PipeError::BadDimensions)
                } else {
                    Ok(
                        StateModel {
                            img: Frame {
                                w: width as nat,
                                h: height as nat,
                                px: Seq::new((width as nat) * (height as nat), |k: int| c),
                            },
                            headers: Seq::empty(),
                            format: ImageFormat::PNG,
                        },
                    )
                }
            },
        },
        Source::Encoded { bytes, format, headers } => {
            let f = match format {
                Option::Some(f) => Option::Some(f),
                Option::None => sniffed_of(bytes@),
            };
            match f {
                Option::None => Err(PipeError::UnknownFormat),
                Option::Some(f) => match decoded_of(bytes@, f) {
                    Option::None => Err(PipeError::Decode),
                    Option::Some(frame) => if frame.w == 0 || frame.h == 0 {
                        Err(PipeError::Decode)
                    } else {
                        Ok(StateModel { img: frame, headers: headers@, format: f })
                    },
                },
            }
        },
    }
}

/// Validity of a queue of operations.
pub open spec fn ops_wf(ops: Seq<Op>) -> bool {
    forall|i: int| 0 <= i < ops.len() ==> op_wf(#[trigger] ops[i])
}

/// How many overlay joins remain from position `i` on.
pub open spec fn count_from(ops: Seq<Op>, i: int) -> nat
    decreases ops.len() - i,
    when 0 <= i <= ops.len()
{
    if i >= ops.len() {
        0
    } else {
        (if ops[i] matches Op::Overlay { .. } {
            1nat
        } else {
            0nat
        }) + count_from(ops, i + 1)
    }
}

/// Appending an operation adds its own overlay joins and no other.
pub proof fn lemma_count_push(ops: Seq<Op>, op: Op, i: int)
    requires
        0 <= i <= ops.len(),
    ensures
        count_from(ops.push(op), i) == count_from(ops, i) + (if op matches Op::Overlay { .. } {
            1nat
        } else {
            0nat
        }),
    decreases ops.len() - i,
{
    if i == ops.len() {
        assert(count_from(ops.push(op), i + 1) == 0);
    } else {
        lemma_count_push(ops, op, i + 1);
    }
}

/// A deferred pipeline: the source of the initial image, the ordered queue of
/// operations, and the pipelines whose images pending overlay joins will
/// paste, in join order. Each chaining call consumes the pipeline and returns
/// the extended one.
#[derive(Debug)]
pub struct WorkingImage {
    pub source: Source,
    pub ops: Vec<Op>,
    pub overlays: Vec<WorkingImage>,
}

impl WorkingImage {
    /// Validity of the queue alone: well-formed directives, and one pending
    /// pipeline per overlay join.
    pub open spec fn queue_wf(self) -> bool {
        &&& ops_wf(self.ops@)
        &&& count_from(self.ops@, 0) == self.overlays@.len()
    }

    /// Validity: the queue, and the queue of every pending overlay pipeline.
    pub open spec fn wf(self) -> bool {
        &&& self.queue_wf()
        &&& forall|i: int|
            0 <= i < self.overlays@.len() ==> (#[trigger] self.overlays@[i]).queue_wf()
    }

    /// A pipeline over a blank canvas of the given size and fill colour; the
    /// colour is parsed only when the pipeline runs.
    pub fn empty(w: u32, h: u32, color: String) -> (r: WorkingImage)
        ensures
            r.wf(),
            r.source == (Source::Blank { width: w, height: h, color }),
            r.ops@ == Seq::<Op>::empty(),
            r.overlays@ == Seq::<WorkingImage>::empty(),
    {
        WorkingImage {
            source: Source::Blank { width: w, height: h, color },
            ops: Vec::new(),
            overlays: Vec::new(),
        }
    }

    /// A pipeline over fetched encoded bytes and the headers they came with;
    /// decoding, and content sniffing when no format is given, happen only
    /// when the pipeline runs.
    pub fn from_fetched(bytes: Vec<u8>, format: Option<ImageFormat>, headers: Headers) -> (r:
        WorkingImage)
        ensures
            r.wf(),
            r.source == (Source::Encoded { bytes, format, headers }),
            r.ops@ == Seq::<Op>::empty(),
            r.overlays@ == Seq::<WorkingImage>::empty(),
    {
        WorkingImage {
            source: Source::Encoded { bytes, format, headers },
            ops: Vec::new(),
            overlays: Vec::new(),
        }
    }

    /// Appends one operation that needs no second image.
    fn push_op(self, op: Op) -> (r: WorkingImage)
        requires
            self.wf(),
            op_wf(op),
            !(op matches Op::Overlay { .. }),
        ensures
            r.wf(),
            r.source == self.source,
            r.ops@ == self.ops@.push(op),
            r.overlays@ == self.overlays@,
    {
        proof {
            lemma_count_push(self.ops@, op, 0);
        }
        let WorkingImage { source, mut ops, overlays } = self;
        ops.push(op);
        WorkingImage { source, ops, overlays }
    }

    /// Queues a Gaussian blur; the host performs it when the pipeline runs.
    pub fn blur(self, sigma_milli: u32) -> (r: WorkingImage)
        requires
            self.wf(),
        ensures
            r.wf(),
            r.source == self.source,
            r.overlays@ == self.overlays@,
            r.ops@ == self.ops@.push(Op::Filter { op: FilterOp::Blur { sigma_milli } }),
    {
        self.push_op(Op::Filter { op: FilterOp::Blur { sigma_milli } })
    }

    /// Queues a border: the four margins resolve against the image when the
    /// pipeline runs, and the colour is parsed then too. For margins left
    /// unfilled (fully transparent), pass the colour `00000000`.
    pub fn border(self, top: Dim, right: Dim, bottom: Dim, left: Dim, color: String) -> (r:
        WorkingImage)
        requires
            self.wf(),
            top.wf(),
            right.wf(),
            bottom.wf(),
            left.wf(),
        ensures
            r.wf(),
            r.source == self.source,
            r.overlays@ == self.overlays@,
            r.ops@.len() == self.ops@.len() + 1,
            r.ops@.drop_last() == self.ops@,
            r.ops@.last() matches Op::Border { top: t, right: rt, bottom: b, left: l, color: c }
                && t == top && rt == right && b == bottom && l == left && c@ == sbytes(color),
    {
        let cb = color.as_str().as_bytes_vec();
        let r = self.push_op(Op::Border { top, right, bottom, left, color: cb });
        proof {
            assert(r.ops@.drop_last() =~= self.ops@);
        }
        r
    }

    /// Queues a brightness change. Amounts above `i32::MAX - 255` are
    /// clamped there; any amount of 255 or more already saturates every
    /// channel, so the pixels are unchanged by the clamp.
    pub fn brighten(self, value: i32) -> (r: WorkingImage)
        requires
            self.wf(),
        ensures
            r.wf(),
            r.source == self.source,
            r.overlays@ == self.overlays@,
            r.ops@ == self.ops@.push(
                Op::Brighten {
                    value: if value > i32::MAX - 255 {
                        (i32::MAX - 255) as i32
                    } else {
                        value
                    },
                },
            ),
    {
        let v: i32 = if value > i32::MAX - 255 {
            i32::MAX - 255
        } else {
            value
        };
        self.push_op(Op::Brighten { value: v })
    }

    /// Queues a contrast adjustment; the host performs it when the pipeline
    /// runs.
    pub fn contrast(self, amount_milli: i32) -> (r: WorkingImage)
        requires
            self.wf(),
        ensures
            r.wf(),
            r.source == self.source,
            r.overlays@ == self.overlays@,
            r.ops@ == self.ops@.push(Op::Filter { op: FilterOp::Contrast { amount_milli } }),
    {
        self.push_op(Op::Filter { op: FilterOp::Contrast { amount_milli } })
    }

    /// Queues a crop to the given rectangle, clamped to the image.
    pub fn crop(self, x: u32, y: u32, width: u32, height: u32) -> (r: WorkingImage)
        requires
            self.wf(),
        ensures
            r.wf(),
            r.source == self.source,
            r.overlays@ == self.overlays@,
            r.ops@ == self.ops@.push(Op::Crop { x, y, width, height }),
    {
        self.push_op(Op::Crop { x, y, width, height })
    }

    /// Queues a mirror: left-right when `horizontal`, else top-bottom.
    pub fn flip(self, horizontal: bool) -> (r: WorkingImage)
        requires
            self.wf(),
        ensures
            r.wf(),
            r.source == self.source,
            r.overlays@ == self.overlays@,
            r.ops@ == self.ops@.push(Op::Flip { horizontal }),
    {
        self.push_op(Op::Flip { horizontal })
    }

    /// Queues a grayscale conversion.
    pub fn grayscale(self) -> (r: WorkingImage)
        requires
            self.wf(),
        ensures
            r.wf(),
            r.source == self.source,
            r.overlays@ == self.overlays@,
            r.ops@ == self.ops@.push(Op::Grayscale),
    {
        self.push_op(Op::Grayscale)
    }

    /// Queues an overlay join: when the pipeline runs, `other`'s resolved
    /// image is pasted by the placement directives, clipped and repeated on
    /// request.
    pub fn overlay(
        self,
        other: WorkingImage,
        x: Dim,
        halign: Option<i8>,
        hrepeat: bool,
        y: Dim,
        valign: Option<i8>,
        vrepeat: bool,
    ) -> (r: WorkingImage)
        requires
            self.wf(),
            other.wf(),
            x.wf(),
            y.wf(),
        ensures
            r.wf(),
            r.source == self.source,
            r.overlays@ == self.overlays@.push(other),
            r.ops@ == self.ops@.push(Op::Overlay { x, halign, hrepeat, y, valign, vrepeat }),
    {
        proof {
            lemma_count_push(self.ops@, Op::Overlay { x, halign, hrepeat, y, valign, vrepeat }, 0);
        }
        let WorkingImage { source, mut ops, mut overlays } = self;
        ops.push(Op::Overlay { x, halign, hrepeat, y, valign, vrepeat });
        overlays.push(other);
        WorkingImage { source, ops, overlays }
    }

    /// Queues a resize: the bounds resolve against the image when the
    /// pipeline runs; aspect ratio is preserved unless `exact`; the filter
    /// defaults to Lanczos3.
    pub fn resize(self, width: Dim, height: Dim, exact: bool, filter: Option<FilterType>) -> (r:
        WorkingImage)
        requires
            self.wf(),
            width.wf(),
            height.wf(),
        ensures
            r.wf(),
            r.source == self.source,
            r.overlays@ == self.overlays@,
            r.ops@ == self.ops@.push(Op::Resize { width, height, exact, filter }),
    {
        self.push_op(Op::Resize { width, height, exact, filter })
    }

    /// Queues a rotation; only 90, 180 and 270 degrees are accepted, and the
    /// check happens only when the pipeline runs.
    pub fn rotate(self, degrees: u32) -> (r: WorkingImage)
        requires
            self.wf(),
        ensures
            r.wf(),
            r.source == self.source,
            r.overlays@ == self.overlays@,
            r.ops@ == self.ops@.push(Op::Rotate { degrees }),
    {
        self.push_op(Op::Rotate { degrees })
    }

    /// Queues an unsharp mask; the host performs it when the pipeline runs.
    pub fn sharpen(self, sigma_milli: u32, threshold: i32) -> (r: WorkingImage)
        requires
            self.wf(),
        ensures
            r.wf(),
            r.source == self.source,
            r.overlays@ == self.overlays@,
            r.ops@ == self.ops@.push(Op::Filter { op: FilterOp::Sharpen { sigma_milli, threshold } }),
    {
        self.push_op(Op::Filter { op: FilterOp::Sharpen { sigma_milli, threshold } })
    }

    /// Queues a thumbnail scaling: like resize, with the fast integer
    /// algorithm.
    pub fn thumbnail(self, width: Dim, height: Dim, exact: bool) -> (r: WorkingImage)
        requires
            self.wf(),
            width.wf(),
            height.wf(),
        ensures
            r.wf(),
            r.source == self.source,
            r.overlays@ == self.overlays@,
            r.ops@ == self.ops@.push(Op::Thumbnail { width, height, exact }),
    {
        self.push_op(Op::Thumbnail { width, height, exact })
    }

    /// Resolves the source (synthesis, or sniff and decode) and starts the
    /// executor over the queued operations; the first source failure is
    /// terminal.
    pub fn build(self, format: Option<ImageFormat>) -> (r: Result<Exec, PipeError>)
        requires
            self.wf(),
        ensures
            match r {
                Ok(e) => {
                    &&& source_spec(self.source) matches Ok(sm) && e.state@ == sm
                    &&& e.wf()
                    &&& e.ops@ == self.ops@
                    &&& e.overlays@ == self.overlays@
                    &&& e.next == 0
                    &&& !e.taken
                    &&& !e.failed
                    &&& e.out_format == format
                },
                Err(er) => source_spec(self.source) == Err::<StateModel, PipeError>(er),
            },
    {

        let WorkingImage { source, ops, overlays } = self;
        let state: ImageState = match source {
            Source::Blank { width, height, color } => {
                let col = match crate::color::rgba_string(color.as_str()) {
                    Ok(c) => c,
                    Err(_) => {
                        return Err(PipeError::BadColor);
                    },
                };
                if width == 0 || height == 0 {
                    return Err(PipeError::BadDimensions);
                }
                let canvas = Canvas::filled(width, height, col);
                proof {
                    assert(canvas@.px =~= Seq::new((width as nat) * (height as nat), |k: int| col));
                }
                ImageState { canvas, headers: Headers::new(), format: ImageFormat::PNG }
            },
            Source::Encoded { bytes, format: src_format, headers } => {
                let fmt = match src_format {
                    Some(f) => f,
                    None => match crate::imops::sniff_raw(&bytes) {
                        Some(f) => f,
                        None => {
                            return Err(PipeError::UnknownFormat);
                        },
                    },
                };
                let canvas = match decode_canvas(&bytes, fmt) {
                    Ok(c) => c,
                    Err(_) => {
                        return Err(PipeError::Decode);
                    },
                };
                if canvas.width == 0 || canvas.height == 0 {
                    return Err(PipeError::Decode);
                }
                ImageState { canvas, headers, format: fmt }
            },
        };
        Ok(Exec { state, ops, next: 0, overlays, taken: false, failed: false, out_format: format })
    }
}

/// What the executor needs from the host to go on: a filter applied to the
/// current pixels, or the resolved image of the next pending overlay
/// pipeline.
#[derive(Clone, Copy, Debug, PartialEq, Eq, Structural)]
pub enum Need {
    Filter(FilterOp),
    Overlay,
}

/// What stopped a run over the queue, if anything: the state reached, the
/// position stopped at, and the error if one arose. Positions advance past
/// applied operations only; the run stops at the end, at the first operation
/// that needs the host, or at the first failure.
pub open spec fn run_spec(s: StateModel, ops: Seq<Op>, i: int) -> (StateModel, int, Option<
    PipeError,
>)
    decreases ops.len() - i,
    when 0 <= i <= ops.len()
{
    if i >= ops.len() {
        (s, i, None)
    } else if !is_pure(ops[i]) {
        (s, i, None)
    } else {
        match apply_op_spec(s, ops[i]) {
            Ok(s2) => run_spec(s2, ops, i + 1),
            Err(e) => (s, i, Some(e)),
        }
    }
}

/// What an operation needs from the host, if anything.
pub open spec fn need_of(op: Op) -> Option<Need> {
    match op {
        Op::Filter { op } => Some(Need::Filter(op)),
        Op::Overlay { .. } => Some(Need::Overlay),
        _ => None,
    }
}

/// The executor: the resolved image state and the queue, drained in call
/// order. It stops where the host must act, and the first failure is
/// terminal.
#[derive(Debug)]
pub struct Exec {
    pub state: ImageState,
    pub ops: Vec<Op>,
    pub next: usize,
    pub overlays: Vec<WorkingImage>,
    pub taken: bool,
    pub failed: bool,
    pub out_format: Option<ImageFormat>,
}

impl Exec {
    /// Validity: a consistent state while not failed, positions in range, one
    /// pending pipeline per remaining overlay join (less the one handed out).
    pub open spec fn wf(self) -> bool {
        &&& !self.failed ==> self.state.wf()
        &&& self.next <= self.ops@.len()
        &&& ops_wf(self.ops@)
        &&& forall|i: int| 0 <= i < self.overlays@.len() ==> (#[trigger] self.overlays@[i]).queue_wf()
        &&& count_from(self.ops@, self.next as int) == self.overlays@.len() + (if self.taken {
            1nat
        } else {
            0nat
        })
        &&& self.taken ==> self.next < self.ops@.len() && self.ops@[self.next as int] matches
            Op::Overlay { .. }
    }

    /// Whether every queued operation has been applied.
    pub fn done(&self) -> (r: bool)
        ensures
            r == (self.next == self.ops@.len()),
    {
        self.next == self.ops.len()
    }

    /// Applies queued operations in order until the queue is drained, the
    /// host must act, or one fails; the first failure is terminal.
    pub fn advance(&mut self) -> (r: Result<Option<Need>, PipeError>)
        requires
            old(self).wf(),
            !old(self).taken,
            !old(self).failed,
        ensures
            final(self).wf(),
            final(self).ops@ == old(self).ops@,
            final(self).overlays@ == old(self).overlays@,
            final(self).out_format == old(self).out_format,
            !final(self).taken,
            ({
                let (s2, j, e) = run_spec(old(self).state@, old(self).ops@, old(self).next as int);
                match r {
                    Ok(need) => {
                        &&& !final(self).failed
                        &&& e is None
                        &&& final(self).state@ == s2
                        &&& final(self).state@.headers == old(self).state@.headers
                        &&& final(self).state@.format == old(self).state@.format
                        &&& final(self).next == j
                        &&& match need {
                            Option::None => j == old(self).ops@.len(),
                            Option::Some(n) => j < old(self).ops@.len() && need_of(
                                old(self).ops@[j],
                            ) == Some(n),
                        }
                    },
                    Err(er) => {
                        &&& final(self).failed
                        &&& e == Some(er)
                        &&& final(self).next == j
                    },
                }
            }),
{
        let n = self.ops.len();
        while self.next < n
            invariant
                n == self.ops@.len(),
                self.ops@ == old(self).ops@,
                self.overlays@ == old(self).overlays@,
                self.out_format == old(self).out_format,
                !self.taken,
                !self.failed,
                self.state.wf(),
                self.next <= n,
                ops_wf(self.ops@),
                forall|i: int| 0 <= i < self.overlays@.len() ==> (#[trigger] self.overlays@[i]).queue_wf(),
                count_from(self.ops@, self.next as int) == self.overlays@.len(),
                self.state@.headers == old(self).state@.headers,
                self.state@.format == old(self).state@.format,
                run_spec(old(self).state@, old(self).ops@, old(self).next as int) == run_spec(
                    self.state@,
                    self.ops@,
                    self.next as int,
                ),
            decreases n - self.next,
        {
            match &self.ops[self.next] {
                Op::Filter { op } => {
                    return Ok(Some(Need::Filter(*op)));
                },
                Op::Overlay { .. } => {
                    return Ok(Some(Need::Overlay));
                },
                _ => {},
            }
            let mut tmp = ImageState {
                canvas: Canvas::filled(1, 1, crate::color::transparent()),
                headers: Headers::new(),
                format: ImageFormat::PNG,
            };
            core::mem::swap(&mut tmp, &mut self.state);
            let ghost pre = tmp@;
            match apply_op(tmp, &self.ops[self.next]) {
                Ok(s2) => {
                    self.state = s2;
                    self.next += 1;
                },
                Err(e) => {
                    self.failed = true;
                    return Err(e);
                },
            }
        }
        Ok(None)
    }

    /// Hands out the pipeline whose image the pending overlay join needs; the
    /// host resolves it and gives the image back.
    pub fn take_pending_overlay(&mut self) -> (r: WorkingImage)
        requires
            old(self).wf(),
            !old(self).taken,
            !old(self).failed,
            old(self).next < old(self).ops@.len(),
            old(self).ops@[old(self).next as int] matches Op::Overlay { .. },
        ensures
            final(self).wf(),
            final(self).taken,
            !final(self).failed,
            r.queue_wf(),
            r == old(self).overlays@[0],
            final(self).overlays@ == old(self).overlays@.drop_first(),
            final(self).ops@ == old(self).ops@,
            final(self).next == old(self).next,
            final(self).state == old(self).state,
            final(self).out_format == old(self).out_format,
    {
        let r = self.overlays.remove(0);
        self.taken = true;
        proof {
            assert(self.overlays@ =~= old(self).overlays@.drop_first());
        }
        r
    }

    /// Pastes the resolved image of the pending overlay join by the queued
    /// placement directives, and moves past the join.
    pub fn supply_overlay(&mut self, other: &ImageState)
        requires
            old(self).wf(),
            old(self).taken,
            !old(self).failed,
            other.wf(),
        ensures
            final(self).wf(),
            !final(self).taken,
            !final(self).failed,
            final(self).ops@ == old(self).ops@,
            final(self).overlays@ == old(self).overlays@,
            final(self).out_format == old(self).out_format,
            final(self).next == old(self).next + 1,
            final(self).state@.headers == old(self).state@.headers,
            final(self).state@.format == old(self).state@.format,
            old(self).ops@[old(self).next as int] matches Op::Overlay {
                x,
                halign,
                hrepeat,
                y,
                valign,
                vrepeat,
            } ==> final(self).state@.img == overlay_frame(
                old(self).state@.img,
                other@.img,
                x,
                halign,
                hrepeat,
                y,
                valign,
                vrepeat,
            ),
    {
        let (xd, ha, hr, yd, va, vr) = match &self.ops[self.next] {
            Op::Overlay { x, halign, hrepeat, y, valign, vrepeat } => (
                *x,
                *halign,
                *hrepeat,
                *y,
                *valign,
                *vrepeat,
            ),
            _ => {
                proof {
                    assert(false);
                }
                (Dim { num: 0, den: 1, pct: false, neg: false }, None, false, Dim { num: 0, den: 1, pct: false, neg: false }, None, false)
            },
        };
        let mut base = Canvas::filled(1, 1, crate::color::transparent());
        core::mem::swap(&mut base, &mut self.state.canvas);
        let out = overlay_onto(base, &other.canvas, xd, ha, hr, yd, va, vr);
        self.state.canvas = out;
        self.taken = false;
        let _len = self.ops.len();
        self.next = self.next + 1;
    }

    /// Replaces the pixels with what the host computed for the pending filter
    /// operation, and moves past it. The host kernels (blur, contrast,
    /// unsharpen) keep the dimensions, so the supplied canvas must match the
    /// current one: dimensions change only where a transform says so.
    pub fn supply_canvas(&mut self, c: Canvas)
        requires
            old(self).wf(),
            !old(self).taken,
            !old(self).failed,
            old(self).next < old(self).ops@.len(),
            old(self).ops@[old(self).next as int] matches Op::Filter { .. },
            c.wf(),
            c@.w == old(self).state@.img.w,
            c@.h == old(self).state@.img.h,
        ensures
            final(self).wf(),
            !final(self).taken,
            !final(self).failed,
            final(self).ops@ == old(self).ops@,
            final(self).overlays@ == old(self).overlays@,
            final(self).out_format == old(self).out_format,
            final(self).next == old(self).next + 1,
            final(self).state@.headers == old(self).state@.headers,
            final(self).state@.format == old(self).state@.format,
            final(self).state@.img == c@,
    {
        self.state.canvas = c;
        let _len = self.ops.len();
        self.next = self.next + 1;
    }

    /// The resolved image state, once the queue is drained.
    pub fn into_state(self) -> (r: ImageState)
        requires
            self.wf(),
            !self.failed,
            !self.taken,
            self.next == self.ops@.len(),
        ensures
            r == self.state,
            r.wf(),
    {
        let Exec { state, .. } = self;
        state
    }

    /// Encodes the resolved image in the requested format (the source's own
    /// when none was requested), and derives the response headers: the stale
    /// content length dropped, the content type set to the format's MIME
    /// type.
    pub fn finish(self) -> (r: Result<(Headers, Vec<u8>), PipeError>)
        requires
            self.wf(),
            !self.failed,
            !self.taken,
            self.next == self.ops@.len(),
        ensures
            ({
                let f = match self.out_format {
                    Option::Some(f) => f,
                    Option::None => self.state@.format,
                };
                let hs = without_key(
                    without_key(self.state@.headers, "Content-Length".spec_bytes()),
                    "Content-Type".spec_bytes(),
                ).push(("Content-Type".spec_bytes(), f.mime_spec()));
                match r {
                    Ok(out) => encoded_of(
                        self.state@.img.w,
                        self.state@.img.h,
                        self.state@.img.px,
                        f,
                    ) == Some(out.1@) && out.0@ == hs,
                    Err(e) => e == PipeError::Encode && encoded_of(
                        self.state@.img.w,
                        self.state@.img.h,
                        self.state@.img.px,
                        f,
                    ) is None,
                }
            }),
    {
        let Exec { state, out_format, .. } = self;
        let ImageState { canvas, mut headers, format } = state;
        let f = match out_format {
            Some(f) => f,
            None => format,
        };
        headers.delete("Content-Length");
        headers.set("Content-Type", f.mime_type());
        match encode_canvas(&canvas, f) {
            Ok(b) => Ok((headers, b)),
            Err(_) => Err(PipeError::Encode),
        }
    }
}

/// Operations run in exactly the order they were chained: running a queue
/// extended by one more pure operation is running the queue, then applying
/// that operation to its result; an earlier stop or failure is unchanged by
/// the extension.
pub proof fn lemma_run_append(s: StateModel, ops: Seq<Op>, op: Op, i: int)
    requires
        0 <= i <= ops.len(),
        is_pure(op),
    ensures
        ({
            let (s1, j, e1) = run_spec(s, ops, i);
            let (s2, j2, e2) = run_spec(s, ops.push(op), i);
            if e1 is Some || j < ops.len() {
                s2 == s1 && j2 == j && e2 == e1
            } else {
                match apply_op_spec(s1, op) {
                    Ok(s3) => s2 == s3 && j2 == ops.len() + 1 && e2 is None,
                    Err(er) => s2 == s1 && j2 == ops.len() && e2 == Some(er),
                }
            }
        }),
    decreases ops.len() - i,
{
    if i == ops.len() {
        assert(ops.push(op)[i] == op);
        match apply_op_spec(s, op) {
            Ok(s3) => {
                assert(run_spec(s3, ops.push(op), i + 1) == (s3, i + 1, Option::<PipeError>::None));
            },
            Err(_) => {},
        }
    } else {
        assert(ops.push(op)[i] == ops[i]);
        if is_pure(ops[i]) {
            match apply_op_spec(s, ops[i]) {
                Ok(s2) => {
                    lemma_run_append(s2, ops, op, i + 1);
                },
                Err(_) => {},
            }
        }
    }
}

/// Rotation by 90 or 270 degrees swaps the image's dimensions, rotation by
/// 180 keeps them, and any other angle fails with the usage error, whatever
/// the image.
pub proof fn lemma_rotate_dims(s: StateModel, degrees: u32)
    ensures
        degrees == 90 || degrees == 270 ==> (apply_op_spec(s, Op::Rotate { degrees }) matches Ok(
        s2) && s2.img.w == s.img.h && s2.img.h == s.img.w),
        degrees == 180 ==> (apply_op_spec(s, Op::Rotate { degrees }) matches Ok(s2) && s2.img.w
            == s.img.w && s2.img.h == s.img.h),
        degrees != 90 && degrees != 180 && degrees != 270 ==> apply_op_spec(
            s,
            Op::Rotate { degrees },
        ) == Err::<StateModel, PipeError>(PipeError::BadRotation),
{
}

} // verus!
