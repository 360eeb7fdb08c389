use karakuri::color::{argb_from_hex, item_colors, rgb_from_hex, ColorDefaults, ItemColorConfig};

#[test]
fn argb_eight_digits() {
    // 0xCC1e1e2e: alpha 0.8, red and green 0.118, blue 0.18
    assert_eq!(argb_from_hex("0xCC1e1e2e"), Some((0xCC, 0x1e, 0x1e, 0x2e)));
    assert_eq!(argb_from_hex("FF00FF00"), Some((0xFF, 0x00, 0xFF, 0x00)));
}

#[test]
fn rgb_six_digits_have_full_alpha() {
    assert_eq!(argb_from_hex("#FFFFFF"), Some((255, 255, 255, 255)));
    assert_eq!(argb_from_hex("##0x123456"), None);
    assert_eq!(argb_from_hex("0x0x#123456"), Some((255, 0x12, 0x34, 0x56)));
}

#[test]
fn invalid_hex_is_none() {
    assert_eq!(argb_from_hex("nope"), None);
    assert_eq!(argb_from_hex("0xZZZZZZZZ"), None);
    assert_eq!(argb_from_hex("1234567"), None);
    assert_eq!(argb_from_hex("+ABCDEF1"), Some((0x0A, 0xBC, 0xDE, 0xF1)));
}

#[test]
fn hex_color_channels() {
    assert_eq!(rgb_from_hex("#89b4fa"), (0x89, 0xb4, 0xfa));
    assert_eq!(rgb_from_hex("ff0000"), (255, 0, 0));
    assert_eq!(rgb_from_hex("#fff"), (255, 255, 255));
    assert_eq!(rgb_from_hex("GG0000"), (255, 0, 0));
    assert_eq!(rgb_from_hex("+f0000"), (15, 0, 0));
}

/// The fractional channels of a `#rrggbb` color, from the library's bytes.
fn parse_hex_color(hex: &str) -> (f64, f64, f64) {
    let (r, g, b) = rgb_from_hex(hex);
    (f64::from(r) / 255.0, f64::from(g) / 255.0, f64::from(b) / 255.0)
}

struct Argb {
    a: f64,
    r: f64,
    g: f64,
    b: f64,
}

/// The fractional channels of an ARGB color, from the library's bytes.
fn from_hex(hex: &str) -> Option<Argb> {
    let (a, r, g, b) = argb_from_hex(hex)?;
    Some(Argb { a: f64::from(a) / 255.0, r: f64::from(r) / 255.0, g: f64::from(g) / 255.0, b: f64::from(b) / 255.0 })
}

#[test]
fn test_parse_hex_color_valid() {
    assert_eq!(
        parse_hex_color("#89b4fa"),
        (f64::from(0x89) / 255.0, f64::from(0xb4) / 255.0, f64::from(0xfa) / 255.0)
    );
    assert_eq!(parse_hex_color("#000000"), (0.0, 0.0, 0.0));
    assert_eq!(parse_hex_color("#FFFFFF"), (1.0, 1.0, 1.0));
    assert_eq!(parse_hex_color("#FF0000"), (1.0, 0.0, 0.0));
}

#[test]
fn test_parse_hex_color_no_hash() {
    assert_eq!(
        parse_hex_color("89b4fa"),
        (f64::from(0x89) / 255.0, f64::from(0xb4) / 255.0, f64::from(0xfa) / 255.0)
    );
    assert_eq!(parse_hex_color("FF0000"), (1.0, 0.0, 0.0));
}

#[test]
fn test_parse_hex_color_invalid_length() {
    // Short strings fall back to white.
    assert_eq!(parse_hex_color("#FFF"), (1.0, 1.0, 1.0));
    assert_eq!(parse_hex_color(""), (1.0, 1.0, 1.0));
    assert_eq!(parse_hex_color("#FF"), (1.0, 1.0, 1.0));
}

#[test]
fn test_parse_hex_color_malformed_hex() {
    // Non-hex digits fall back to 255 per channel.
    assert_eq!(parse_hex_color("ZZZZZZ"), (1.0, 1.0, 1.0));
    assert_eq!(parse_hex_color("GG0000"), (1.0, 0.0, 0.0));
}

#[test]
fn parse_argb_hex_8_digit() {
    let c = from_hex("0xCC1e1e2e").expect("should parse");
    assert!((c.a - 0.8).abs() < 0.01);
    assert!((c.r - 0.118).abs() < 0.01);
    assert!((c.g - 0.118).abs() < 0.01);
    assert!((c.b - 0.18).abs() < 0.01);
}

#[test]
fn parse_rgb_hex_6_digit() {
    let c = from_hex("#FFFFFF").expect("should parse");
    assert!((c.a - 1.0).abs() < f64::EPSILON);
    assert!((c.r - 1.0).abs() < f64::EPSILON);
}

#[test]
fn parse_hex_no_prefix() {
    let c = from_hex("FF00FF00").expect("should parse");
    assert!((c.a - 1.0).abs() < f64::EPSILON);
    assert!((c.r - 0.0).abs() < f64::EPSILON);
    assert!((c.g - 1.0).abs() < f64::EPSILON);
    assert!((c.b - 0.0).abs() < f64::EPSILON);
}

#[test]
fn parse_hex_invalid() {
    assert!(from_hex("nope").is_none());
    assert!(from_hex("0xZZZZZZZZ").is_none());
}

fn no_colors() -> ItemColorConfig {
    ItemColorConfig {
        icon_color: None,
        label_color: None,
        background_color: None,
        icon_highlight_color: None,
        label_highlight_color: None,
        background_border_color: None,
    }
}

#[test]
fn item_colors_fall_back_in_order() {
    let defaults = ColorDefaults {
        icon_color: "0xff112233".to_string(),
        label_color: "bogus".to_string(),
        background_color: "#80000000".to_string(),
    };
    let c = item_colors(&no_colors(), &defaults);
    assert_eq!(c.icon, (0xff, 0x11, 0x22, 0x33));
    assert_eq!(c.label, (255, 255, 255, 255));
    assert_eq!(c.background, (0x80, 0, 0, 0));
    assert_eq!(c.icon_highlight, c.icon);
    assert_eq!(c.label_highlight, c.label);
    assert_eq!(c.border, (0, 0, 0, 0));

    let mut own = no_colors();
    own.icon_color = Some("0xff445566".to_string());
    own.label_highlight_color = Some("0xffabcdef".to_string());
    own.background_color = Some("nope".to_string());
    let c = item_colors(&own, &defaults);
    assert_eq!(c.icon, (0xff, 0x44, 0x55, 0x66));
    assert_eq!(c.icon_highlight, (0xff, 0x44, 0x55, 0x66));
    assert_eq!(c.label_highlight, (0xff, 0xab, 0xcd, 0xef));
    assert_eq!(c.background, (0x80, 0, 0, 0));
}
