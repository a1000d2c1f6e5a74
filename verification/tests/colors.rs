use hx_lsp::colors::{
    color_range, detect_hex_color, find_color_closure, next_position, parse_hex, scan_color,
    ColorCall, ColorFormat, ColorScan,
};
use hx_lsp::encoding::{Position, Range};
use ropey::Rope;

fn assert_color_eq(actual: (f32, f32, f32, f32), expected: (f32, f32, f32, f32)) {
    assert!((actual.0 - expected.0).abs() < 0.001, "Red mismatch: {actual:?} {expected:?}");
    assert!((actual.1 - expected.1).abs() < 0.001, "Green mismatch: {actual:?} {expected:?}");
    assert!((actual.2 - expected.2).abs() < 0.001, "Blue mismatch: {actual:?} {expected:?}");
    assert!((actual.3 - expected.3).abs() < 0.001, "Alpha mismatch: {actual:?} {expected:?}");
}

#[test]
fn test_hex() {
    let cases = [
        ("#ff0000", Some((1.0, 0.0, 0.0, 1.0))),
        ("#00FF00", Some((0.0, 1.0, 0.0, 1.0))),
        ("#0000ff80", None),
        ("#gg0000", None),
    ];
    for (input, expected) in cases {
        let result = parse_hex(&input.to_lowercase());
        assert_eq!(result.is_some(), expected.is_some(), "Failed case: {}", input);
        if let Some(expected_values) = expected {
            let (red, green, blue) = result.unwrap();
            let actual = (red as f32 / 255.0, green as f32 / 255.0, blue as f32 / 255.0, 1.0);
            assert_color_eq(actual, expected_values);
        }
    }
}

#[test]
fn parse_hex_values() {
    assert_eq!(parse_hex("#1a2B3c"), Some((0x1a, 0x2b, 0x3c)));
    assert_eq!(parse_hex("1a2B3c"), Some((0x1a, 0x2b, 0x3c)));
    assert_eq!(parse_hex("###ffffff"), Some((255, 255, 255)));
    assert_eq!(parse_hex("#+a0000"), Some((10, 0, 0)));
    assert_eq!(parse_hex("#-a0000"), None);
    assert_eq!(parse_hex("#fffff"), None);
    assert_eq!(parse_hex("#"), None);
    assert_eq!(parse_hex(""), None);
    assert_eq!(parse_hex("#你好ab12"), None);
}

#[test]
fn hex_color_in_document() {
    let doc = Rope::from_str("x #FF8000 y #12345");
    assert_eq!(detect_hex_color(&doc, 2), Some((9, (255, 128, 0))));
    assert_eq!(detect_hex_color(&doc, 0), None);
    assert_eq!(detect_hex_color(&doc, 12), None);
    assert_eq!(detect_hex_color(&doc, 100), None);
    assert_eq!(detect_hex_color(&Rope::from_str("#gggggg"), 0), None);
    assert_eq!(detect_hex_color(&Rope::from_str("#abcdef"), 0), Some((7, (0xab, 0xcd, 0xef))));
}

#[test]
fn closing_bracket_is_found() {
    let doc = Rope::from_str("rgb(1, (2), 3) tail");
    assert_eq!(find_color_closure(&doc, 4), Some((13, "1, (2), 3".to_string())));
    assert_eq!(find_color_closure(&doc, 8), Some((9, "2".to_string())));
    assert_eq!(find_color_closure(&Rope::from_str("rgb(1, 2"), 4), None);
    assert_eq!(find_color_closure(&Rope::from_str("rgb()"), 4), Some((4, String::new())));
    assert_eq!(find_color_closure(&Rope::from_str("rgb()"), 9), None);
}

#[test]
fn scan_finds_hex_calls_and_nothing() {
    let doc = Rope::from_str("#ff0000 RGB(255, 0, 0) srgba(0,0,0,1) hsl(ab");
    assert_eq!(scan_color(&doc, 0), ColorScan::Hex { end: 7, red: 255, green: 0, blue: 0 });
    assert_eq!(
        scan_color(&doc, 8),
        ColorScan::Call(ColorCall {
            format: ColorFormat::Rgb,
            end: 21,
            text: "rgb(255, 0, 0)".to_string()
        })
    );
    assert_eq!(
        scan_color(&doc, 23),
        ColorScan::Call(ColorCall {
            format: ColorFormat::Srgba,
            end: 36,
            text: "srgba(0,0,0,1)".to_string()
        })
    );
    assert_eq!(
        scan_color(&doc, 24),
        ColorScan::Call(ColorCall {
            format: ColorFormat::Rgba,
            end: 36,
            text: "rgba(0,0,0,1)".to_string()
        })
    );
    assert_eq!(scan_color(&doc, 1), ColorScan::Nothing);
    assert_eq!(scan_color(&doc, 38), ColorScan::Nothing);
    assert_eq!(scan_color(&doc, 1000), ColorScan::Nothing);
    assert_eq!(ColorFormat::Hsva.prefix_str(), "hsva(");
}

#[test]
fn search_goes_on_behind_a_color() {
    let hex = ColorScan::Hex { end: 7, red: 0, green: 0, blue: 0 };
    assert_eq!(next_position(0, &hex, true), 7);
    let call = ColorScan::Call(ColorCall {
        format: ColorFormat::Rgb,
        end: 21,
        text: String::new(),
    });
    assert_eq!(next_position(8, &call, true), 22);
    assert_eq!(next_position(8, &call, false), 9);
    assert_eq!(next_position(8, &ColorScan::Nothing, false), 9);
    assert_eq!(next_position(usize::MAX, &ColorScan::Nothing, false), usize::MAX);
}

#[test]
fn range_of_a_color() {
    let doc = Rope::from_str("\n            #ff0000\n            srgb(0.2, 0.8, 0.4)\n");
    assert_eq!(
        color_range(&doc, 13, 20),
        Some(Range::new(Position::new(1, 12), Position::new(1, 19)))
    );
    assert_eq!(
        color_range(&doc, 33, 52),
        Some(Range::new(Position::new(2, 12), Position::new(2, 31)))
    );
    assert_eq!(color_range(&doc, 0, 1), Some(Range::new(Position::new(0, 0), Position::new(1, 0))));
    assert_eq!(color_range(&doc, 0, 1000), None);
    let crlf = Rope::from_str("a\r\nb");
    assert_eq!(
        color_range(&crlf, 2, 3),
        Some(Range::new(Position::new(0, 2), Position::new(1, 0)))
    );
}
