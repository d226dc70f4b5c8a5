use fractal_saver::color::{default_gradient, hex_digit, parse_color, parse_entry, parse_gradient, ColorStop};
use fractal_saver::json::{Json, Number};

fn stop(red: u8, green: u8, blue: u8) -> ColorStop {
    ColorStop { red, green, blue }
}

fn text(s: &str) -> Json {
    Json::Text(s.to_string())
}

#[test]
fn exact_hex_color_decodes() {
    assert_eq!(parse_color("#FF8000"), Some(stop(255, 128, 0)));
    assert_eq!(parse_color("#0a1B2c"), Some(stop(10, 27, 44)));
    assert_eq!(parse_color("#000000"), Some(stop(0, 0, 0)));
    assert_eq!(parse_color("#ffffff"), Some(stop(255, 255, 255)));
}

#[test]
fn malformed_colors_are_rejected() {
    assert_eq!(parse_color(""), None);
    assert_eq!(parse_color("#12345"), None);
    assert_eq!(parse_color("#GG0000"), None);
    assert_eq!(parse_color("FF8000"), None);
    assert_eq!(parse_color("#12 456"), None);
}

#[test]
fn leftmost_color_in_a_longer_string() {
    assert_eq!(parse_color("x#010203y"), Some(stop(1, 2, 3)));
    assert_eq!(parse_color("#zz#102030#405060"), Some(stop(16, 32, 48)));
}

#[test]
fn hex_digits() {
    assert_eq!(hex_digit('0'), Some(0));
    assert_eq!(hex_digit('9'), Some(9));
    assert_eq!(hex_digit('a'), Some(10));
    assert_eq!(hex_digit('F'), Some(15));
    assert_eq!(hex_digit('g'), None);
    assert_eq!(hex_digit('#'), None);
}

#[test]
fn only_strings_give_stops() {
    assert_eq!(parse_entry(&text("#010101")), Some(stop(1, 1, 1)));
    assert_eq!(parse_entry(&Json::Null), None);
    assert_eq!(parse_entry(&Json::Boolean(true)), None);
    let n = Number { negative: false, mantissa: 123456, exponent: 0 };
    assert_eq!(parse_entry(&Json::Number(n)), None);
}

#[test]
fn invalid_entries_dropped_in_order() {
    let entries = vec![
        text("#ff0000"),
        text("#nothex"),
        Json::Null,
        text("#00ff00"),
        text("blue"),
        text("#0000FF"),
    ];
    assert_eq!(
        parse_gradient(&entries),
        vec![stop(255, 0, 0), stop(0, 255, 0), stop(0, 0, 255)]
    );
    let valid = vec![text("#ff0000"), text("#00ff00"), text("#0000FF")];
    assert_eq!(parse_gradient(&valid).len(), 3);
    let one_bad = vec![text("#ff0000"), text("#00ff0"), text("#0000FF")];
    assert_eq!(parse_gradient(&one_bad), vec![stop(255, 0, 0), stop(0, 0, 255)]);
}

#[test]
fn empty_gradient_list() {
    assert_eq!(parse_gradient(&Vec::new()), Vec::<ColorStop>::new());
}

#[test]
fn default_gradient_is_black_white_black() {
    assert_eq!(default_gradient(), vec![stop(0, 0, 0), stop(255, 255, 255), stop(0, 0, 0)]);
}
