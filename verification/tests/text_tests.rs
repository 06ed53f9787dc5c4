use cautious_carnival::color::Color;
use cautious_carnival::decimal::{decimal_string, push_decimal, push_zero_padded};
use cautious_carnival::replace::replace_all_str;
use cautious_carnival::strings::{chars_of, hex_digit, is_placeholder_font_name, owned, push_all, string_of};
use cautious_carnival::svg::{escape_svg_text, svg_background, svg_frame_text, svg_header};

#[test]
fn hex_of_palette_blue() {
    assert_eq!(Color::rgb(0x3F, 0xA7, 0xFF).to_hex(), "#3FA7FF");
}

#[test]
fn hex_ignores_alpha() {
    assert_eq!(Color::rgba(0x1C, 0x1C, 0x1C, 0).to_hex(), "#1C1C1C");
    assert_eq!(Color::rgb(0, 0, 0).to_hex(), "#000000");
    assert_eq!(Color::rgb(255, 255, 255).to_hex(), "#FFFFFF");
}

#[test]
fn constructors_set_channels() {
    assert_eq!(Color::rgb(1, 2, 3), Color { r: 1, g: 2, b: 3, a: 255 });
    assert_eq!(Color::rgba(1, 2, 3, 4), Color { r: 1, g: 2, b: 3, a: 4 });
}

#[test]
fn css_string_of_opaque_colour_is_hex() {
    assert_eq!(Color::rgb(0xE0, 0x3E, 0x3E).to_css_string(), "#E03E3E");
}

#[test]
fn css_string_of_translucent_colour() {
    assert_eq!(Color::rgba(10, 20, 30, 128).to_css_string(), "rgba(10,20,30,0.502)");
    assert_eq!(Color::rgba(1, 2, 3, 0).to_css_string(), "rgba(1,2,3,0.000)");
    assert_eq!(Color::rgba(1, 2, 3, 1).to_css_string(), "rgba(1,2,3,0.004)");
    assert_eq!(Color::rgba(255, 0, 0, 254).to_css_string(), "rgba(255,0,0,0.996)");
}

#[test]
fn css_alpha_matches_float_rounding() {
    for a in 0..255u8 {
        let expected = format!("rgba(0,0,0,{:.3})", a as f64 / 255.0);
        assert_eq!(Color::rgba(0, 0, 0, a).to_css_string(), expected);
    }
}

#[test]
fn hex_digits() {
    assert_eq!(hex_digit(0), '0');
    assert_eq!(hex_digit(9), '9');
    assert_eq!(hex_digit(10), 'A');
    assert_eq!(hex_digit(15), 'F');
}

#[test]
fn decimals() {
    assert_eq!(decimal_string(0), "0");
    assert_eq!(decimal_string(7), "7");
    assert_eq!(decimal_string(1234567890), "1234567890");
    assert_eq!(decimal_string(u64::MAX), u64::MAX.to_string());
    let mut s = String::from("n=");
    push_decimal(&mut s, 42);
    assert_eq!(s, "n=42");
}

#[test]
fn zero_padding() {
    let mut s = String::new();
    push_zero_padded(&mut s, 7, 6);
    assert_eq!(s, "000007");
    let mut s = String::new();
    push_zero_padded(&mut s, 1234567, 6);
    assert_eq!(s, "1234567");
    let mut s = String::new();
    push_zero_padded(&mut s, 0, 3);
    assert_eq!(s, "000");
}

#[test]
fn decimal_round_trip_example() {
    for n in [0u64, 9, 10, 99, 100, 65535, 4294967296] {
        assert_eq!(decimal_string(n).parse::<u64>().unwrap(), n);
    }
}

#[test]
fn replace_matches_std() {
    let cases = [
        ("say {text} now", "{text}", "hi"),
        ("{out}{out}", "{out}", "a.wav"),
        ("aaaa", "aa", "b"),
        ("abc", "x", "y"),
        ("", "a", "b"),
        ("aaa", "a", "aa"),
        ("abc", "", "X"),
        ("", "", "X"),
        ("héllo", "", "-"),
        ("ab", "", ""),
    ];
    for (s, p, r) in cases {
        assert_eq!(replace_all_str(s, p, r), s.replace(p, r));
    }
}

#[test]
fn replace_whole_pattern_example() {
    assert_eq!(replace_all_str("{text}", "{text}", "hello"), "hello");
}

#[test]
fn replace_without_match_example() {
    assert_eq!(replace_all_str("plain words", "{out}", "x.wav"), "plain words");
}

#[test]
fn string_helpers() {
    assert_eq!(chars_of("héllo"), vec!['h', 'é', 'l', 'l', 'o']);
    assert_eq!(string_of(&vec!['o', 'k']), "ok");
    assert_eq!(owned("abc"), "abc");
    let mut s = owned("ab");
    push_all(&mut s, "cd");
    assert_eq!(s, "abcd");
}

#[test]
fn placeholder_font_names() {
    assert!(is_placeholder_font_name("REPLACE_WITH_PRIMARY_FONT_FILENAME.ttf"));
    assert!(is_placeholder_font_name("REPLACE_WITH_"));
    assert!(!is_placeholder_font_name("Inter-Regular.ttf"));
    assert!(!is_placeholder_font_name("REPLACE"));
    assert!(!is_placeholder_font_name(""));
}

#[test]
fn svg_escaping() {
    assert_eq!(escape_svg_text("a < b && c > d"), "a &lt; b &amp;&amp; c &gt; d");
    assert_eq!(escape_svg_text("&lt;"), "&amp;lt;");
    assert_eq!(escape_svg_text("plain"), "plain");
}

#[test]
fn escaped_text_has_no_markup_example() {
    let out = escape_svg_text("<b>x</b> & y");
    assert!(!out.contains('<') && !out.contains('>'));
}

#[test]
fn svg_document_header() {
    assert_eq!(
        svg_header(1920, 1080),
        "<?xml version=\"1.0\" encoding=\"UTF-8\"?>\n<svg xmlns=\"http://www.w3.org/2000/svg\" width=\"1920\" height=\"1080\" viewBox=\"0 0 1920 1080\">\n"
    );
}

#[test]
fn svg_frame_background() {
    assert_eq!(
        svg_background(100, 50, Color::rgb(0x1C, 0x1C, 0x1C)),
        "  <rect x=\"0\" y=\"0\" width=\"100\" height=\"50\" fill=\"#1C1C1C\" fill-opacity=\"1.0\"/>\n"
    );
    assert_eq!(
        svg_background(1, 2, Color::rgba(0, 0, 0, 0)),
        "  <rect x=\"0\" y=\"0\" width=\"1\" height=\"2\" fill=\"rgba(0,0,0,0.000)\" fill-opacity=\"1.0\"/>\n"
    );
}

#[test]
fn svg_header_goes_before_the_first_frame_only() {
    let body = "<g id=\"frame0\" data-t=\"0.000\">\n</g>\n";
    let first = svg_frame_text(0, 64, 48, body);
    assert_eq!(first, format!("{}{}", svg_header(64, 48), body));
    assert!(first.starts_with("<?xml"));
    assert_eq!(svg_frame_text(1, 64, 48, body), body);
    assert_eq!(svg_frame_text(7, 64, 48, ""), "");
}
