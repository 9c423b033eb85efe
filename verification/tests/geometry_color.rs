use imgpipe::ColorError;
use imgpipe::Dim;
use imgpipe::FilterType;
use imgpipe::ImageFormat;
use imgpipe::Rgba;
use imgpipe::filter_type_from_string;
use imgpipe::image_format_from_string;
use imgpipe::resolve;
use imgpipe::resolve_signed;
use imgpipe::rgba_string;
use imgpipe::unknown_filter_message;
use imgpipe::unknown_format_message;

#[test]
fn resolve_half_percent_of_hundred() {
    assert_eq!(resolve(100, Dim::ratio(1, 2, true)), 50);
}

#[test]
fn resolve_absolute_fifty() {
    assert_eq!(resolve(100, Dim::px(50)), 50);
}

#[test]
fn resolve_percent_above_one() {
    assert_eq!(resolve(10, Dim::ratio(3, 2, true)), 15);
}

#[test]
fn resolve_truncates_not_rounds() {
    assert_eq!(resolve(10, Dim::ratio(99, 100, true)), 9);
}

#[test]
fn resolve_absolute_truncates() {
    assert_eq!(resolve(100, Dim::ratio(7, 2, false)), 3);
}

#[test]
fn resolve_negative_size_is_zero() {
    assert_eq!(resolve(100, Dim::signed(true, 1, 2, true)), 0);
}

#[test]
fn resolve_signed_negative_offset() {
    assert_eq!(resolve_signed(100, Dim::signed(true, 2, 1, false)), -2);
    assert_eq!(resolve_signed(100, Dim::signed(false, 1, 4, true)), 25);
}

#[test]
fn parse_six_digit_red() {
    assert_eq!(rgba_string("FF0000"), Ok(Rgba { r: 255, g: 0, b: 0, a: 255 }));
}

#[test]
fn parse_eight_digit_green_with_alpha() {
    assert_eq!(rgba_string("00FF0080"), Ok(Rgba { r: 0, g: 255, b: 0, a: 128 }));
}

#[test]
fn parse_three_digits_fails() {
    assert_eq!(rgba_string("ABC"), Err(ColorError::Length));
}

#[test]
fn parse_non_hex_fails() {
    assert_eq!(rgba_string("GGGGGG"), Err(ColorError::Digit));
}

#[test]
fn parse_lower_case_hex() {
    assert_eq!(rgba_string("a1b2c3"), Ok(Rgba { r: 0xA1, g: 0xB2, b: 0xC3, a: 255 }));
}

#[test]
fn parse_empty_fails() {
    assert_eq!(rgba_string(""), Err(ColorError::Length));
}

#[test]
fn format_names() {
    assert_eq!(image_format_from_string("PNG"), Some(ImageFormat::PNG));
    assert_eq!(image_format_from_string("JPEG"), Some(ImageFormat::JPEG));
    assert_eq!(image_format_from_string("png"), None);
    assert_eq!(image_format_from_string("GIF"), None);
}

#[test]
fn filter_names() {
    assert_eq!(filter_type_from_string("Nearest"), Some(FilterType::Nearest));
    assert_eq!(filter_type_from_string("Triangle"), Some(FilterType::Triangle));
    assert_eq!(filter_type_from_string("CatmullRom"), Some(FilterType::CatmullRom));
    assert_eq!(filter_type_from_string("Gaussian"), Some(FilterType::Gaussian));
    assert_eq!(filter_type_from_string("Lanczos3"), Some(FilterType::Lanczos3));
    assert_eq!(filter_type_from_string("lanczos3"), None);
}

#[test]
fn mime_types() {
    assert_eq!(ImageFormat::PNG.mime_type(), "image/png");
    assert_eq!(ImageFormat::JPEG.mime_type(), "image/jpeg");
}

#[test]
fn unknown_names_are_reported_with_the_value() {
    assert_eq!(unknown_format_message("GIF"), b"Unknown format: GIF".to_vec());
    assert_eq!(unknown_filter_message("Box"), b"Unknown filter type: Box".to_vec());
}
