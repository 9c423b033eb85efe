use imgpipe::Dim;
use imgpipe::FilterOp;
use imgpipe::FilterType;
use imgpipe::Headers;
use imgpipe::ImageFormat;
use imgpipe::ImageState;
use imgpipe::Need;
use imgpipe::PipeError;
use imgpipe::WorkingImage;

fn run_pure(w: WorkingImage) -> ImageState {
    let mut ex = w.build(None).expect("build");
    assert_eq!(ex.advance().expect("advance"), None);
    ex.into_state()
}

fn px(s: &ImageState, x: u32, y: u32) -> (u8, u8, u8, u8) {
    let p = s.canvas.get_px(x, y);
    (p.r, p.g, p.b, p.a)
}

#[test]
fn rotate_90_swaps_dimensions() {
    let s = run_pure(WorkingImage::empty(3, 2, String::from("FF0000")).rotate(90));
    assert_eq!((s.canvas.width, s.canvas.height), (2, 3));
}

#[test]
fn rotate_180_preserves_dimensions() {
    let s = run_pure(WorkingImage::empty(3, 2, String::from("FF0000")).rotate(180));
    assert_eq!((s.canvas.width, s.canvas.height), (3, 2));
}

#[test]
fn rotate_270_swaps_dimensions() {
    let s = run_pure(WorkingImage::empty(3, 2, String::from("FF0000")).rotate(270));
    assert_eq!((s.canvas.width, s.canvas.height), (2, 3));
}

#[test]
fn rotate_45_is_a_usage_error() {
    let mut ex = WorkingImage::empty(3, 2, String::from("FF0000")).rotate(45).build(None).expect(
        "build",
    );
    assert_eq!(ex.advance(), Err(PipeError::BadRotation));
}

#[test]
fn rotate_90_moves_pixels() {
    // A 2x1 canvas, left red and right blue, rotated clockwise: red ends on
    // top.
    let w = WorkingImage::empty(1, 1, String::from("FF0000")).border(
        Dim::px(0),
        Dim::px(1),
        Dim::px(0),
        Dim::px(0),
        String::from("0000FF"),
    ).rotate(90);
    let s = run_pure(w);
    assert_eq!((s.canvas.width, s.canvas.height), (1, 2));
    assert_eq!(px(&s, 0, 0), (255, 0, 0, 255));
    assert_eq!(px(&s, 0, 1), (0, 0, 255, 255));
}

#[test]
fn flip_horizontal_mirrors() {
    let w = WorkingImage::empty(1, 1, String::from("FF0000")).border(
        Dim::px(0),
        Dim::px(1),
        Dim::px(0),
        Dim::px(0),
        String::from("0000FF"),
    ).flip(true);
    let s = run_pure(w);
    assert_eq!(px(&s, 0, 0), (0, 0, 255, 255));
    assert_eq!(px(&s, 1, 0), (255, 0, 0, 255));
}

#[test]
fn flip_vertical_mirrors() {
    let w = WorkingImage::empty(1, 1, String::from("FF0000")).border(
        Dim::px(0),
        Dim::px(0),
        Dim::px(1),
        Dim::px(0),
        String::from("0000FF"),
    ).flip(false);
    let s = run_pure(w);
    assert_eq!(px(&s, 0, 0), (0, 0, 255, 255));
    assert_eq!(px(&s, 0, 1), (255, 0, 0, 255));
}

#[test]
fn brighten_clamps_channels() {
    let s = run_pure(WorkingImage::empty(1, 1, String::from("10C0FF")).brighten(100));
    assert_eq!(px(&s, 0, 0), (0x10 + 100, 0xC0 + 63, 255, 255));
}

#[test]
fn grayscale_uses_luma() {
    let s = run_pure(WorkingImage::empty(1, 1, String::from("FF0000")).grayscale());
    // Luma of pure red: 2126 * 255 / 10000, truncated.
    assert_eq!(px(&s, 0, 0), (54, 54, 54, 255));
}

#[test]
fn crop_clamps_to_image() {
    let s = run_pure(WorkingImage::empty(10, 8, String::from("FF0000")).crop(6, 5, 100, 100));
    assert_eq!((s.canvas.width, s.canvas.height), (4, 3));
}

#[test]
fn crop_outside_is_a_usage_error() {
    let mut ex = WorkingImage::empty(4, 4, String::from("FF0000")).crop(10, 10, 2, 2).build(
        None,
    ).expect("build");
    assert_eq!(ex.advance(), Err(PipeError::BadDimensions));
}

#[test]
fn resize_exact_sets_dimensions() {
    let s = run_pure(
        WorkingImage::empty(10, 10, String::from("FF0000")).resize(
            Dim::px(4),
            Dim::px(6),
            true,
            Some(FilterType::Nearest),
        ),
    );
    assert_eq!((s.canvas.width, s.canvas.height), (4, 6));
}

#[test]
fn resize_preserves_aspect_ratio() {
    let s = run_pure(
        WorkingImage::empty(10, 20, String::from("FF0000")).resize(
            Dim::px(5),
            Dim::px(20),
            false,
            None,
        ),
    );
    assert_eq!((s.canvas.width, s.canvas.height), (5, 10));
}

#[test]
fn resize_percent_halves() {
    let s = run_pure(
        WorkingImage::empty(10, 10, String::from("FF0000")).resize(
            Dim::ratio(1, 2, true),
            Dim::ratio(1, 2, true),
            true,
            None,
        ),
    );
    assert_eq!((s.canvas.width, s.canvas.height), (5, 5));
}

#[test]
fn resize_to_zero_is_a_usage_error() {
    let mut ex = WorkingImage::empty(10, 10, String::from("FF0000")).resize(
        Dim::px(0),
        Dim::px(5),
        true,
        None,
    ).build(None).expect("build");
    assert_eq!(ex.advance(), Err(PipeError::BadDimensions));
}

#[test]
fn thumbnail_scales_down() {
    let s = run_pure(
        WorkingImage::empty(16, 16, String::from("FF0000")).thumbnail(
            Dim::px(4),
            Dim::px(4),
            false,
        ),
    );
    assert_eq!((s.canvas.width, s.canvas.height), (4, 4));
}

#[test]
fn pipeline_applies_in_chain_order() {
    // Resize, then grayscale, then border: the border colour must survive
    // the grayscale only if it is applied after it.
    let w = WorkingImage::empty(4, 4, String::from("FF0000"))
        .resize(Dim::px(2), Dim::px(2), true, Some(FilterType::Nearest))
        .grayscale()
        .border(Dim::px(1), Dim::px(1), Dim::px(1), Dim::px(1), String::from("FF0000"));
    let s = run_pure(w);
    assert_eq!((s.canvas.width, s.canvas.height), (4, 4));
    // Ring: still pure red, untouched by the earlier grayscale.
    assert_eq!(px(&s, 0, 0), (255, 0, 0, 255));
    assert_eq!(px(&s, 3, 3), (255, 0, 0, 255));
    // Interior: the grayed, resized red.
    assert_eq!(px(&s, 1, 1), (54, 54, 54, 255));
    assert_eq!(px(&s, 2, 2), (54, 54, 54, 255));
}

#[test]
fn blank_bad_color_fails_at_build() {
    assert!(matches!(
        WorkingImage::empty(2, 2, String::from("XYZ")).build(None),
        Err(PipeError::BadColor)
    ));
}

#[test]
fn blank_zero_dimension_fails_at_build() {
    assert!(matches!(
        WorkingImage::empty(0, 5, String::from("FF0000")).build(None),
        Err(PipeError::BadDimensions)
    ));
}

#[test]
fn border_bad_color_fails_lazily() {
    // The bad colour is noticed only when the pipeline runs.
    let w = WorkingImage::empty(2, 2, String::from("FF0000")).border(
        Dim::px(1),
        Dim::px(1),
        Dim::px(1),
        Dim::px(1),
        String::from("nothex"),
    );
    let mut ex = w.build(None).expect("build");
    assert_eq!(ex.advance(), Err(PipeError::BadColor));
}

#[test]
fn error_short_circuits_later_steps() {
    let w = WorkingImage::empty(4, 4, String::from("FF0000")).rotate(45).grayscale();
    let mut ex = w.build(None).expect("build");
    assert_eq!(ex.advance(), Err(PipeError::BadRotation));
}

#[test]
fn filter_ops_ask_the_host() {
    let w = WorkingImage::empty(2, 2, String::from("FF0000")).blur(1500).grayscale();
    let mut ex = w.build(None).expect("build");
    assert_eq!(
        ex.advance().expect("advance"),
        Some(Need::Filter(FilterOp::Blur { sigma_milli: 1500 }))
    );
    // The host hands back whatever it computed; here a white canvas.
    let c = imgpipe::Canvas::filled(2, 2, imgpipe::Rgba { r: 255, g: 255, b: 255, a: 255 });
    ex.supply_canvas(c);
    assert_eq!(ex.advance().expect("advance"), None);
    let s = ex.into_state();
    // Grayscale of white is white: the supplied canvas went through the rest.
    assert_eq!(px(&s, 0, 0), (255, 255, 255, 255));
}

#[test]
fn sharpen_and_contrast_are_host_work() {
    let w = WorkingImage::empty(2, 2, String::from("FF0000")).contrast(-250).sharpen(900, 3);
    let mut ex = w.build(None).expect("build");
    assert_eq!(
        ex.advance().expect("advance"),
        Some(Need::Filter(FilterOp::Contrast { amount_milli: -250 }))
    );
    let s0 = ex.state.canvas.clone();
    ex.supply_canvas(s0);
    assert_eq!(
        ex.advance().expect("advance"),
        Some(Need::Filter(FilterOp::Sharpen { sigma_milli: 900, threshold: 3 }))
    );
    let s1 = ex.state.canvas.clone();
    ex.supply_canvas(s1);
    assert_eq!(ex.advance().expect("advance"), None);
}

#[test]
fn finish_sets_content_type_and_drops_length() {
    let mut headers = Headers::new();
    headers.append(String::from("X-Custom"), String::from("kept"));
    headers.append(String::from("content-length"), String::from("999"));
    headers.append(String::from("Content-Type"), String::from("text/plain"));

    // Synthesize a source image, encode it, and re-enter the pipeline as a
    // fetched response with those headers.
    let blank = WorkingImage::empty(3, 3, String::from("FF0000")).build(None).expect("build");
    let (_, bytes) = {
        let mut ex = blank;
        assert_eq!(ex.advance().expect("advance"), None);
        ex.finish().expect("finish")
    };
    let w = WorkingImage::from_fetched(bytes, Some(ImageFormat::PNG), headers);
    let mut ex = w.build(None).expect("build");
    assert_eq!(ex.advance().expect("advance"), None);
    let (out_headers, _) = ex.finish().expect("finish");
    let entries = &out_headers.entries;
    assert_eq!(entries.len(), 2);
    assert_eq!(entries[0], (String::from("X-Custom"), String::from("kept")));
    assert_eq!(entries[1], (String::from("Content-Type"), String::from("image/png")));
}

#[test]
fn headers_delete_is_case_insensitive() {
    let mut h = Headers::new();
    h.append(String::from("Content-Length"), String::from("1"));
    h.append(String::from("CONTENT-LENGTH"), String::from("2"));
    h.append(String::from("X-Other"), String::from("3"));
    h.delete("content-length");
    assert_eq!(h.entries, vec![(String::from("X-Other"), String::from("3"))]);
}

#[test]
fn headers_set_replaces_all_matches() {
    let mut h = Headers::new();
    h.append(String::from("content-type"), String::from("a"));
    h.append(String::from("Content-Type"), String::from("b"));
    h.set("Content-Type", "image/jpeg");
    assert_eq!(h.entries, vec![(String::from("Content-Type"), String::from("image/jpeg"))]);
}

#[test]
fn decode_garbage_fails() {
    let bytes = vec![1u8, 2, 3, 4, 5, 6, 7, 8];
    let w = WorkingImage::from_fetched(bytes, Some(ImageFormat::PNG), Headers::new());
    assert!(matches!(w.build(None), Err(PipeError::Decode)));
}

#[test]
fn sniff_garbage_fails() {
    let bytes = vec![1u8, 2, 3, 4, 5, 6, 7, 8];
    let w = WorkingImage::from_fetched(bytes, None, Headers::new());
    assert!(matches!(w.build(None), Err(PipeError::UnknownFormat)));
}

#[test]
fn border_negative_margin_is_a_usage_error() {
    let w = WorkingImage::empty(4, 4, String::from("FF0000")).border(
        Dim::signed(true, 1, 1, false),
        Dim::px(1),
        Dim::px(1),
        Dim::px(1),
        String::from("000000"),
    );
    let mut ex = w.build(None).expect("build");
    assert_eq!(ex.advance(), Err(PipeError::BadDimensions));
}

#[test]
fn error_messages() {
    assert_eq!(PipeError::BadRotation.message(), "Can only rotate 90, 180, or 270");
    assert_eq!(PipeError::BadColor.message(), "Only hex colors currently accepted");
}

#[test]
fn brighten_huge_amount_saturates() {
    let s = run_pure(WorkingImage::empty(1, 1, String::from("102030")).brighten(i32::MAX));
    assert_eq!(px(&s, 0, 0), (255, 255, 255, 255));
}

#[test]
fn brighten_huge_negative_blackens() {
    let s = run_pure(WorkingImage::empty(1, 1, String::from("F0E0D0")).brighten(i32::MIN));
    assert_eq!(px(&s, 0, 0), (0, 0, 0, 255));
}
