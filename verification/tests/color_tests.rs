use ledstrip::color::hex_to_rgb;
use ledstrip::color::rgb_to_hex;
use ledstrip::color::Rgb;
use ledstrip::gradient::DisplayMode;

#[test]
fn parses_exact_values() {
    assert_eq!(hex_to_rgb("4080ff"), Some((0x40, 0x80, 0xff)));
    assert_eq!(hex_to_rgb("000000"), Some((0, 0, 0)));
    assert_eq!(hex_to_rgb("ffffff"), Some((255, 255, 255)));
    assert_eq!(hex_to_rgb("aabbcc"), Some((0xaa, 0xbb, 0xcc)));
}

#[test]
fn parses_uppercase() {
    assert_eq!(hex_to_rgb("AABBCC"), Some((0xaa, 0xbb, 0xcc)));
    assert_eq!(hex_to_rgb("FFFFFF"), Some((255, 255, 255)));
    assert_eq!(hex_to_rgb("AbCdEf"), Some((0xab, 0xcd, 0xef)));
}

#[test]
fn rejects_wrong_lengths() {
    assert_eq!(hex_to_rgb(""), None);
    assert_eq!(hex_to_rgb("12345"), None);
    assert_eq!(hex_to_rgb("1234567"), None);
    assert_eq!(hex_to_rgb("#aabbcc"), None);
}

#[test]
fn rejects_non_hex_characters() {
    assert_eq!(hex_to_rgb("12345g"), None);
    assert_eq!(hex_to_rgb("zzzzzz"), None);
    assert_eq!(hex_to_rgb("aa bbc"), None);
    assert_eq!(hex_to_rgb("0x1122"), None);
    assert_eq!(hex_to_rgb("ABCDEG"), None);
}

#[test]
fn writes_lowercase_hex() {
    assert_eq!(rgb_to_hex(&Rgb { r: 0x12, g: 0x34, b: 0x56 }), "123456");
    assert_eq!(rgb_to_hex(&Rgb { r: 0, g: 0, b: 0 }), "000000");
    assert_eq!(rgb_to_hex(&Rgb { r: 255, g: 255, b: 255 }), "ffffff");
}

#[test]
fn round_trips_case_insensitively() {
    for h in ["aabbcc", "AABBCC", "0f9E3d", "deadbe"] {
        let (r, g, b) = hex_to_rgb(h).unwrap();
        assert_eq!(rgb_to_hex(&Rgb { r, g, b }), h.to_lowercase());
    }
}

#[test]
fn mode_names() {
    assert_eq!(DisplayMode::Static.name(), "Static");
    assert_eq!(DisplayMode::Scrolling.name(), "Scrolling");
}
