use linfb::color::Color;
use linfb::error::Error;
use std::convert::TryFrom;

fn rejected(text: &str) -> (String, &'static str) {
    match Color::hex(text) {
        Err(Error::InvalidColorString(string, reason)) => (string, reason),
        other => panic!("expected a rejection, got {:?}", other),
    }
}

#[test]
fn hex_parses_six_digits_as_opaque() {
    let color = Color::hex("#808080").unwrap();
    assert_eq!(color, Color { red: 128, green: 128, blue: 128, alpha: 255 });
}

#[test]
fn hex_parses_eight_digits_with_alpha() {
    let color = Color::hex("#11223344").unwrap();
    assert_eq!(color, Color { red: 0x11, green: 0x22, blue: 0x33, alpha: 0x44 });
}

#[test]
fn hex_takes_both_letter_cases() {
    let lower = Color::hex("#abcdef9a").unwrap();
    let upper = Color::hex("#ABCDEF9A").unwrap();
    let mixed = Color::hex("#aBcDeF9a").unwrap();
    assert_eq!(lower, Color { red: 0xab, green: 0xcd, blue: 0xef, alpha: 0x9a });
    assert_eq!(upper, lower);
    assert_eq!(mixed, lower);
}

#[test]
fn hex_rejects_wrong_length() {
    assert_eq!(rejected("#12345"), ("#12345".to_string(), "length must be 7 or 9"));
    assert_eq!(rejected(""), (String::new(), "length must be 7 or 9"));
    assert_eq!(rejected("#1234567"), ("#1234567".to_string(), "length must be 7 or 9"));
    assert_eq!(rejected("#123456789"), ("#123456789".to_string(), "length must be 7 or 9"));
}

#[test]
fn hex_rejects_missing_marker() {
    assert_eq!(rejected("1234567"), ("1234567".to_string(), "first char must be #"));
    assert_eq!(rejected("012345678"), ("012345678".to_string(), "first char must be #"));
}

#[test]
fn hex_rejects_digits_that_are_not_hex() {
    assert_eq!(
        rejected("#12345g"),
        ("#12345g".to_string(), "all characters but first must be hex")
    );
    assert_eq!(
        rejected("#+1+2+3"),
        ("#+1+2+3".to_string(), "all characters but first must be hex")
    );
    assert_eq!(
        rejected("#1234567 "),
        ("#1234567 ".to_string(), "all characters but first must be hex")
    );
}

#[test]
fn hex_measures_length_in_bytes() {
    // Four characters, seven bytes: the length passes, the digits do not.
    assert_eq!(
        rejected("#\u{e9}\u{e9}\u{e9}"),
        ("#\u{e9}\u{e9}\u{e9}".to_string(), "all characters but first must be hex")
    );
    // Seven characters, eight bytes.
    assert_eq!(
        rejected("#12345\u{e9}"),
        ("#12345\u{e9}".to_string(), "length must be 7 or 9")
    );
}

#[test]
fn hex_checks_length_before_marker_before_digits() {
    assert_eq!(rejected("zz").1, "length must be 7 or 9");
    assert_eq!(rejected("zzzzzzz").1, "first char must be #");
    assert_eq!(rejected("#zzzzzz").1, "all characters but first must be hex");
}

#[test]
fn try_from_parses_like_hex() {
    assert_eq!(Color::try_from("#112233").unwrap(), Color::hex("#112233").unwrap());
    assert!(matches!(
        Color::try_from("112233"),
        Err(Error::InvalidColorString(_, "length must be 7 or 9"))
    ));
}

#[test]
fn tuples_convert_to_colors() {
    let opaque: Color = (128, 64, 32).into();
    let clear: Color = (128, 64, 32, 16).into();
    assert_eq!(opaque, Color { red: 128, green: 64, blue: 32, alpha: 255 });
    assert_eq!(clear, Color { red: 128, green: 64, blue: 32, alpha: 16 });
    assert_eq!(opaque, Color::hex("#804020").unwrap());
    assert_eq!(opaque, Color::hex("#804020ff").unwrap());
}

#[test]
fn scaling_by_one_keeps_the_color() {
    let color = Color { red: 7, green: 130, blue: 255, alpha: 255 };
    assert_eq!(color.scaled(255), color);
    let clear = Color { red: 7, green: 130, blue: 255, alpha: 3 };
    assert_eq!(clear.scaled(255), clear);
}

#[test]
fn scaling_by_zero_clears_all_but_alpha() {
    let color = Color { red: 7, green: 130, blue: 255, alpha: 255 };
    assert_eq!(color.scaled(0), Color { red: 0, green: 0, blue: 0, alpha: 255 });
    let clear = Color { red: 7, green: 130, blue: 255, alpha: 9 };
    assert_eq!(clear.scaled(0), Color { red: 0, green: 0, blue: 0, alpha: 9 });
}

#[test]
fn scaling_rounds_down() {
    // 200 * 128 / 255 = 100.39, 100 * 128 / 255 = 50.19, 255 * 128 / 255 = 128.
    let color = Color { red: 200, green: 100, blue: 255, alpha: 77 };
    assert_eq!(color.scaled(128), Color { red: 100, green: 50, blue: 128, alpha: 77 });
    // 1 * 254 / 255 is below one.
    let dim = Color { red: 1, green: 2, blue: 255, alpha: 0 };
    assert_eq!(dim.scaled(254), Color { red: 0, green: 1, blue: 254, alpha: 0 });
}

#[test]
fn to_hex_writes_lower_case_with_alpha() {
    let color = Color { red: 0xab, green: 0x0c, blue: 0xf0, alpha: 0x09 };
    assert_eq!(color.to_hex(), "#ab0cf009");
    assert_eq!(Color { red: 0, green: 0, blue: 0, alpha: 0 }.to_hex(), "#00000000");
    assert_eq!(Color { red: 255, green: 255, blue: 255, alpha: 255 }.to_hex(), "#ffffffff");
}

#[test]
fn hex_round_trip_keeps_the_digits() {
    assert_eq!(Color::hex("#1A2b3C4d").unwrap().to_hex(), "#1a2b3c4d");
    assert_eq!(Color::hex("#1A2B3C").unwrap().to_hex(), "#1a2b3cff");
    let color = Color { red: 1, green: 2, blue: 3, alpha: 4 };
    assert_eq!(Color::hex(&color.to_hex()).unwrap(), color);
}
