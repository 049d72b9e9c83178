//! Colour parsing, formatting and packing.

use goldfinger::color::Color;
use goldfinger::color::ParseColorError;

#[test]
fn test_parse_color() {
    assert_eq!("#000000".parse::<Color>().unwrap(), Color::from(0x000000));
    assert_eq!("#ff1234".parse::<Color>().unwrap(), Color::from(0xff1234));
    assert_eq!("#FFFFFF".parse::<Color>().unwrap(), Color::from(0xffffff));

    assert!("#fffff".parse::<Color>().is_err()); // Too short
    assert!("#fffffff".parse::<Color>().is_err()); // Too long
    assert!("ffffff".parse::<Color>().is_err()); // No #
    assert!("@fffffg".parse::<Color>().is_err()); // Incorrect prefix
    assert!("#fffffg".parse::<Color>().is_err()); // bad char
}

#[test]
fn test_display_color() {
    assert_eq!(Color::from(0x000000).to_hex_string().as_str(), "#000000");
    assert_eq!(Color::from(0xff00ff).to_hex_string().as_str(), "#ff00ff");
    assert_eq!(Color::from(0xffffff).to_hex_string().as_str(), "#ffffff");
}

#[test]
fn test_color_channels() {
    let c = Color::from(0x123456);
    assert_eq!(c.red(), 0x12);
    assert_eq!(c.green(), 0x34);
    assert_eq!(c.blue(), 0x56);
    assert_eq!(c.to_bytes(), [0x12, 0x34, 0x56]);
}

#[test]
fn test_color_u32_round_trip() {
    let c = Color { red: 0xAB, green: 0x01, blue: 0xFE };
    assert_eq!(Color::from(u32::from(c)), c);
    assert_eq!(u32::from(Color::from(0x00C0FFEEu32)), 0x00C0FFEE);
}

#[test]
fn test_parse_hex_bytes() {
    assert_eq!(
        Color::from_hex_bytes(b"#8090a0"),
        Ok(Color { red: 0x80, green: 0x90, blue: 0xA0 })
    );
    assert_eq!(Color::from_hex_bytes(b""), Err(ParseColorError));
    assert_eq!(Color::from_hex_bytes(b"#00000 "), Err(ParseColorError));
}

#[test]
fn test_color_default_is_black() {
    assert_eq!(Color::default(), Color { red: 0, green: 0, blue: 0 });
}
