use watermark::color::{hex_digit, parse_color, ColorError};
use watermark::raster::Rgba;

#[test]
fn parses_the_literal_components() {
    assert_eq!(parse_color("FF0000", 150), Ok(Rgba { r: 255, g: 0, b: 0, a: 150 }));
    assert_eq!(parse_color("808080", 0), Ok(Rgba { r: 128, g: 128, b: 128, a: 0 }));
    assert_eq!(parse_color("0a1B2c", 255), Ok(Rgba { r: 10, g: 27, b: 44, a: 255 }));
}

#[test]
fn accepts_one_hash_prefix() {
    assert_eq!(parse_color("#00FF7f", 1), Ok(Rgba { r: 0, g: 255, b: 127, a: 1 }));
    assert_eq!(parse_color("#123456", 9), Ok(Rgba { r: 0x12, g: 0x34, b: 0x56, a: 9 }));
}

#[test]
fn refuses_a_second_hash() {
    assert_eq!(parse_color("##FF0000", 150), Err(ColorError::BadLength));
    assert_eq!(parse_color("##123456", 9), Err(ColorError::BadLength));
    assert_eq!(parse_color("###", 9), Err(ColorError::BadLength));
    // Six characters are left after the first mark, and one of them is no digit.
    assert_eq!(parse_color("##12345", 9), Err(ColorError::BadDigit));
    assert_eq!(parse_color("#######", 9), Err(ColorError::BadDigit));
}

#[test]
fn round_trips_every_byte_value() {
    for v in 0..=255u32 {
        let text = format!("{:02X}{:02x}{:02X}", v, 255 - v, v / 2);
        let alpha = (v as u8).wrapping_mul(7);
        assert_eq!(
            parse_color(&text, alpha),
            Ok(Rgba { r: v as u8, g: (255 - v) as u8, b: (v / 2) as u8, a: alpha })
        );
        let marked = format!("#{}", text);
        assert_eq!(parse_color(&marked, alpha), parse_color(&text, alpha));
    }
}

#[test]
fn refuses_a_wrong_length() {
    assert_eq!(parse_color("", 0), Err(ColorError::BadLength));
    assert_eq!(parse_color("#", 0), Err(ColorError::BadLength));
    assert_eq!(parse_color("FFF", 0), Err(ColorError::BadLength));
    assert_eq!(parse_color("FF00000", 0), Err(ColorError::BadLength));
    assert_eq!(parse_color("FF0000#", 0), Err(ColorError::BadLength));
}

#[test]
fn refuses_what_is_no_digit() {
    assert_eq!(parse_color("GG0000", 0), Err(ColorError::BadDigit));
    assert_eq!(parse_color("FF00 0", 0), Err(ColorError::BadDigit));
    assert_eq!(parse_color("+F+F+F", 0), Err(ColorError::BadDigit));
    assert_eq!(parse_color("FF#000", 0), Err(ColorError::BadDigit));
    assert_eq!(parse_color("ééé123", 0), Err(ColorError::BadDigit));
}

#[test]
fn reads_single_digits() {
    assert_eq!(hex_digit('0'), Some(0));
    assert_eq!(hex_digit('9'), Some(9));
    assert_eq!(hex_digit('a'), Some(10));
    assert_eq!(hex_digit('F'), Some(15));
    assert_eq!(hex_digit('g'), None);
    assert_eq!(hex_digit('/'), None);
    assert_eq!(hex_digit(':'), None);
    assert_eq!(hex_digit('@'), None);
    assert_eq!(hex_digit('`'), None);
}
