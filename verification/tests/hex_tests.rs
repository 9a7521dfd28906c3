use okpalette::hex::hex_to_rgb_u8;
use okpalette::hex::parse_hex;
use okpalette::hex::rgb_to_hex;
use okpalette::term::colorize_output;

#[test]
fn parse_hex_black() {
    assert_eq!(parse_hex("000000"), Some((0, 0, 0)));
}

#[test]
fn parse_hex_white_mixed_case() {
    assert_eq!(parse_hex("FFffFF"), Some((255, 255, 255)));
}

#[test]
fn parse_hex_mixed_digits() {
    assert_eq!(parse_hex("1a2B3c"), Some((0x1a, 0x2b, 0x3c)));
}

#[test]
fn parse_hex_too_short() {
    assert_eq!(parse_hex("12345"), None);
    assert_eq!(parse_hex(""), None);
}

#[test]
fn parse_hex_non_hex_digit() {
    assert_eq!(parse_hex("12345g"), None);
    assert_eq!(parse_hex("#ff000"), None);
}

#[test]
fn parse_hex_ignores_trailing() {
    assert_eq!(parse_hex("abcdef12"), Some((0xab, 0xcd, 0xef)));
}

#[test]
fn hex_to_rgb_u8_plain() {
    assert_eq!(hex_to_rgb_u8("2E3440"), Some([0x2e, 0x34, 0x40]));
}

#[test]
fn hex_to_rgb_u8_strips_hash() {
    assert_eq!(hex_to_rgb_u8("#ff0000"), Some([255, 0, 0]));
    assert_eq!(hex_to_rgb_u8("##00ff00"), Some([0, 255, 0]));
}

#[test]
fn hex_to_rgb_u8_malformed() {
    assert_eq!(hex_to_rgb_u8("#xyzxyz"), None);
    assert_eq!(hex_to_rgb_u8("#"), None);
}

#[test]
fn rgb_to_hex_uppercase() {
    assert_eq!(rgb_to_hex([255, 85, 85]), "FF5555");
    assert_eq!(rgb_to_hex([0, 0, 0]), "000000");
    assert_eq!(rgb_to_hex([46, 52, 64]), "2E3440");
}

#[test]
fn hex_round_trip() {
    for &(r, g, b) in &[(0u8, 0u8, 0u8), (255, 255, 255), (1, 2, 3), (171, 205, 239)] {
        let s = rgb_to_hex([r, g, b]);
        assert_eq!(parse_hex(&s), Some((r, g, b)));
    }
}

#[test]
fn colorize_output_escape_sequence() {
    let out = colorize_output("FF5555", "#FF5555");
    assert_eq!(out, "\x1b[1m\x1b[48;2;0;0;0m\x1b[38;2;255;85;85m#FF5555\x1b[0m");
}

#[test]
fn colorize_output_small_channels() {
    let out = colorize_output("000a10", "x");
    assert_eq!(out, "\x1b[1m\x1b[48;2;0;0;0m\x1b[38;2;0;10;16mx\x1b[0m");
}
