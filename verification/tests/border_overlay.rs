use imgpipe::Dim;
use imgpipe::ImageState;
use imgpipe::Need;
use imgpipe::WorkingImage;

fn run_pure(w: WorkingImage) -> ImageState {
    let mut ex = w.build(None).expect("build");
    assert_eq!(ex.advance().expect("advance"), None);
    ex.into_state()
}

fn resolve_overlays(ex: &mut imgpipe::Exec) {
    loop {
        match ex.advance().expect("advance") {
            None => break,
            Some(Need::Overlay) => {
                let other = ex.take_pending_overlay();
                let st = run_pure(other);
                ex.supply_overlay(&st);
            },
            Some(Need::Filter(_)) => panic!("no filter queued"),
        }
    }
}

fn px(s: &ImageState, x: u32, y: u32) -> (u8, u8, u8, u8) {
    let p = s.canvas.get_px(x, y);
    (p.r, p.g, p.b, p.a)
}

#[test]
fn border_one_pixel_black_ring() {
    let w = WorkingImage::empty(10, 10, String::from("FF0000")).border(
        Dim::px(1),
        Dim::px(1),
        Dim::px(1),
        Dim::px(1),
        String::from("000000"),
    );
    let s = run_pure(w);
    assert_eq!(s.canvas.width, 12);
    assert_eq!(s.canvas.height, 12);
    for x in 0..12u32 {
        for y in 0..12u32 {
            let on_ring = x == 0 || x == 11 || y == 0 || y == 11;
            if on_ring {
                assert_eq!(px(&s, x, y), (0, 0, 0, 255));
            } else {
                assert_eq!(px(&s, x, y), (255, 0, 0, 255));
            }
        }
    }
}

#[test]
fn border_percent_margins() {
    // 10% of a 10-pixel dimension is one pixel on each side.
    let w = WorkingImage::empty(10, 10, String::from("00FF00")).border(
        Dim::ratio(1, 10, true),
        Dim::ratio(1, 10, true),
        Dim::ratio(1, 10, true),
        Dim::ratio(1, 10, true),
        String::from("FFFFFF"),
    );
    let s = run_pure(w);
    assert_eq!((s.canvas.width, s.canvas.height), (12, 12));
    assert_eq!(px(&s, 0, 0), (255, 255, 255, 255));
    assert_eq!(px(&s, 5, 5), (0, 255, 0, 255));
}

#[test]
fn overlay_negative_offset_clips_top_left() {
    let base = WorkingImage::empty(10, 10, String::from("0000FF"));
    let over = WorkingImage::empty(4, 4, String::from("FF0000"));
    let w = base.overlay(
        over,
        Dim::signed(true, 2, 1, false),
        None,
        false,
        Dim::signed(true, 2, 1, false),
        None,
        false,
    );
    let mut ex = w.build(None).expect("build");
    resolve_overlays(&mut ex);
    let s = ex.into_state();
    // Only the bottom-right 2x2 of the overlay lands on the base, at (0, 0).
    for x in 0..10u32 {
        for y in 0..10u32 {
            if x < 2 && y < 2 {
                assert_eq!(px(&s, x, y), (255, 0, 0, 255));
            } else {
                assert_eq!(px(&s, x, y), (0, 0, 255, 255));
            }
        }
    }
}

#[test]
fn overlay_alignment_overrides_offset() {
    // xAlign = end, yAlign = start: flush right and top, whatever the offset
    // says.
    let base = WorkingImage::empty(10, 10, String::from("0000FF"));
    let over = WorkingImage::empty(4, 4, String::from("FF0000"));
    let w = base.overlay(
        over,
        Dim::px(3),
        Some(1),
        false,
        Dim::px(3),
        Some(-1),
        false,
    );
    let mut ex = w.build(None).expect("build");
    resolve_overlays(&mut ex);
    let s = ex.into_state();
    for x in 0..10u32 {
        for y in 0..10u32 {
            if x >= 6 && y < 4 {
                assert_eq!(px(&s, x, y), (255, 0, 0, 255));
            } else {
                assert_eq!(px(&s, x, y), (0, 0, 255, 255));
            }
        }
    }
}

#[test]
fn overlay_center_alignment() {
    let base = WorkingImage::empty(10, 10, String::from("0000FF"));
    let over = WorkingImage::empty(4, 4, String::from("FF0000"));
    let w = base.overlay(over, Dim::px(0), Some(0), false, Dim::px(0), Some(0), false);
    let mut ex = w.build(None).expect("build");
    resolve_overlays(&mut ex);
    let s = ex.into_state();
    assert_eq!(px(&s, 2, 2), (0, 0, 255, 255));
    assert_eq!(px(&s, 3, 3), (255, 0, 0, 255));
    assert_eq!(px(&s, 6, 6), (255, 0, 0, 255));
    assert_eq!(px(&s, 7, 7), (0, 0, 255, 255));
}

#[test]
fn overlay_repeat_both_axes_tiles_fully() {
    // Base exactly twice the overlay in each dimension: four pastes cover it.
    let base = WorkingImage::empty(8, 8, String::from("0000FF"));
    let over = WorkingImage::empty(4, 4, String::from("FF0000"));
    let w = base.overlay(over, Dim::px(0), None, true, Dim::px(0), None, true);
    let mut ex = w.build(None).expect("build");
    resolve_overlays(&mut ex);
    let s = ex.into_state();
    for x in 0..8u32 {
        for y in 0..8u32 {
            assert_eq!(px(&s, x, y), (255, 0, 0, 255));
        }
    }
}

#[test]
fn overlay_repeat_one_axis_only() {
    let base = WorkingImage::empty(8, 8, String::from("0000FF"));
    let over = WorkingImage::empty(4, 4, String::from("FF0000"));
    let w = base.overlay(over, Dim::px(0), None, true, Dim::px(0), None, false);
    let mut ex = w.build(None).expect("build");
    resolve_overlays(&mut ex);
    let s = ex.into_state();
    // The top half is tiled across, the bottom half untouched.
    for x in 0..8u32 {
        for y in 0..8u32 {
            if y < 4 {
                assert_eq!(px(&s, x, y), (255, 0, 0, 255));
            } else {
                assert_eq!(px(&s, x, y), (0, 0, 255, 255));
            }
        }
    }
}

#[test]
fn overlay_translucent_blends() {
    let base = WorkingImage::empty(2, 2, String::from("0000FF"));
    let over = WorkingImage::empty(2, 2, String::from("FF000080"));
    let w = base.overlay(over, Dim::px(0), None, false, Dim::px(0), None, false);
    let mut ex = w.build(None).expect("build");
    resolve_overlays(&mut ex);
    let s = ex.into_state();
    let (r, g, b, a) = px(&s, 0, 0);
    // A half-transparent red over opaque blue mixes the two.
    assert!(r > 90 && r < 170, "red channel {r}");
    assert_eq!(g, 0);
    assert!(b > 90 && b < 170, "blue channel {b}");
    // The crate's float compositing may truncate full alpha to 254.
    assert!(a >= 254, "alpha {a}");
}

#[test]
fn overlay_fully_transparent_leaves_base() {
    let base = WorkingImage::empty(2, 2, String::from("0000FF"));
    let over = WorkingImage::empty(2, 2, String::from("FF000000"));
    let w = base.overlay(over, Dim::px(0), None, false, Dim::px(0), None, false);
    let mut ex = w.build(None).expect("build");
    resolve_overlays(&mut ex);
    let s = ex.into_state();
    assert_eq!(px(&s, 0, 0), (0, 0, 255, 255));
}
