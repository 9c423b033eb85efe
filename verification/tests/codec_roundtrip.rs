use imgpipe::Headers;
use imgpipe::ImageFormat;
use imgpipe::ImageState;
use imgpipe::WorkingImage;

fn run_pure(w: WorkingImage) -> ImageState {
    let mut ex = w.build(None).expect("build");
    assert_eq!(ex.advance().expect("advance"), None);
    ex.into_state()
}

fn encode(w: WorkingImage, fmt: Option<ImageFormat>) -> Vec<u8> {
    let mut ex = w.build(fmt).expect("build");
    assert_eq!(ex.advance().expect("advance"), None);
    let (_, bytes) = ex.finish().expect("finish");
    bytes
}

#[test]
fn png_round_trip_is_exact() {
    let bytes = encode(WorkingImage::empty(5, 4, String::from("336699")), Some(ImageFormat::PNG));
    let s = run_pure(WorkingImage::from_fetched(bytes, Some(ImageFormat::PNG), Headers::new()));
    assert_eq!((s.canvas.width, s.canvas.height), (5, 4));
    assert_eq!(s.format, ImageFormat::PNG);
    for x in 0..5u32 {
        for y in 0..4u32 {
            let p = s.canvas.get_px(x, y);
            assert_eq!((p.r, p.g, p.b, p.a), (0x33, 0x66, 0x99, 255));
        }
    }
}

#[test]
fn png_round_trip_via_sniffing() {
    let bytes = encode(WorkingImage::empty(3, 3, String::from("AABBCC")), Some(ImageFormat::PNG));
    let s = run_pure(WorkingImage::from_fetched(bytes, None, Headers::new()));
    assert_eq!(s.format, ImageFormat::PNG);
    let p = s.canvas.get_px(1, 1);
    assert_eq!((p.r, p.g, p.b), (0xAA, 0xBB, 0xCC));
}

#[test]
fn jpeg_round_trip_within_tolerance() {
    let bytes = encode(WorkingImage::empty(8, 8, String::from("808080")), Some(ImageFormat::JPEG));
    let s = run_pure(WorkingImage::from_fetched(bytes, None, Headers::new()));
    assert_eq!((s.canvas.width, s.canvas.height), (8, 8));
    assert_eq!(s.format, ImageFormat::JPEG);
    for x in 0..8u32 {
        for y in 0..8u32 {
            let p = s.canvas.get_px(x, y);
            // JPEG is lossy: each channel of a flat mid-gray stays within a
            // small tolerance.
            assert!(p.r.abs_diff(0x80) <= 8, "r {}", p.r);
            assert!(p.g.abs_diff(0x80) <= 8, "g {}", p.g);
            assert!(p.b.abs_diff(0x80) <= 8, "b {}", p.b);
            assert_eq!(p.a, 255);
        }
    }
}

#[test]
fn default_output_format_is_the_source_format() {
    // A blank canvas carries PNG as its source format; finishing without a
    // requested format keeps it.
    let blank = WorkingImage::empty(2, 2, String::from("FF0000"));
    let mut ex = blank.build(None).expect("build");
    assert_eq!(ex.advance().expect("advance"), None);
    let (headers, bytes) = ex.finish().expect("finish");
    assert_eq!(
        headers.entries,
        vec![(String::from("Content-Type"), String::from("image/png"))]
    );
    // And the bytes decode as PNG.
    let s = run_pure(WorkingImage::from_fetched(bytes, Some(ImageFormat::PNG), Headers::new()));
    assert_eq!((s.canvas.width, s.canvas.height), (2, 2));
}

#[test]
fn requested_format_overrides_source() {
    let png_bytes = encode(WorkingImage::empty(4, 4, String::from("FF0000")), Some(ImageFormat::PNG));
    let w = WorkingImage::from_fetched(png_bytes, None, Headers::new());
    let mut ex = w.build(Some(ImageFormat::JPEG)).expect("build");
    assert_eq!(ex.advance().expect("advance"), None);
    let (headers, bytes) = ex.finish().expect("finish");
    assert_eq!(
        headers.entries,
        vec![(String::from("Content-Type"), String::from("image/jpeg"))]
    );
    let s = run_pure(WorkingImage::from_fetched(bytes, None, Headers::new()));
    assert_eq!(s.format, ImageFormat::JPEG);
}
