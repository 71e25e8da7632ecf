use svg_tiles::color::{parse_hex_color, Rgb};

#[test]
fn reads_colour_with_hash() {
    assert_eq!(parse_hex_color("#FF0000"), Some(Rgb { red: 255, green: 0, blue: 0 }));
    assert_eq!(parse_hex_color("#00FF00"), Some(Rgb { red: 0, green: 255, blue: 0 }));
}

#[test]
fn reads_colour_without_hash() {
    assert_eq!(parse_hex_color("0000ff"), Some(Rgb { red: 0, green: 0, blue: 255 }));
}

#[test]
fn reads_digits_of_either_case() {
    assert_eq!(parse_hex_color("#1a2B3c"), Some(Rgb { red: 26, green: 43, blue: 60 }));
    assert_eq!(parse_hex_color("AbCdEf"), Some(Rgb { red: 171, green: 205, blue: 239 }));
    assert_eq!(parse_hex_color("#09afAF"), Some(Rgb { red: 9, green: 175, blue: 175 }));
}

#[test]
fn reads_extreme_colours() {
    assert_eq!(parse_hex_color("#000000"), Some(Rgb { red: 0, green: 0, blue: 0 }));
    assert_eq!(parse_hex_color("ffffff"), Some(Rgb { red: 255, green: 255, blue: 255 }));
}

#[test]
fn refuses_wrong_lengths() {
    assert_eq!(parse_hex_color(""), None);
    assert_eq!(parse_hex_color("#"), None);
    assert_eq!(parse_hex_color("#12345"), None);
    assert_eq!(parse_hex_color("12345"), None);
    assert_eq!(parse_hex_color("#1234567"), None);
    assert_eq!(parse_hex_color("1234567"), None);
    assert_eq!(parse_hex_color("#fff"), None);
}

#[test]
fn refuses_other_characters() {
    assert_eq!(parse_hex_color("#12345g"), None);
    assert_eq!(parse_hex_color("#12345G"), None);
    assert_eq!(parse_hex_color("12 456"), None);
    assert_eq!(parse_hex_color(" #123456"), None);
    assert_eq!(parse_hex_color("#123456 "), None);
    assert_eq!(parse_hex_color("##12345"), None);
    assert_eq!(parse_hex_color("##123456"), None);
    assert_eq!(parse_hex_color("12345#"), None);
    assert_eq!(parse_hex_color("/:@`[{"), None);
    assert_eq!(parse_hex_color("red"), None);
}

#[test]
fn refuses_text_outside_ascii() {
    assert_eq!(parse_hex_color("#12345\u{e9}"), None);
    assert_eq!(parse_hex_color("\u{ff11}\u{ff12}\u{ff13}\u{ff14}\u{ff15}\u{ff16}"), None);
    assert_eq!(parse_hex_color("\u{e9}\u{e9}\u{e9}"), None);
}

#[test]
fn writes_colour_in_lower_case_with_hash() {
    assert_eq!(Rgb { red: 255, green: 0, blue: 0 }.to_hex(), "#ff0000");
    assert_eq!(Rgb { red: 0, green: 0, blue: 0 }.to_hex(), "#000000");
    assert_eq!(Rgb { red: 255, green: 255, blue: 255 }.to_hex(), "#ffffff");
    assert_eq!(Rgb { red: 0x1a, green: 0x2b, blue: 0x3c }.to_hex(), "#1a2b3c");
    assert_eq!(Rgb { red: 9, green: 10, blue: 0xf0 }.to_hex(), "#090af0");
}

#[test]
fn written_colour_is_read_back() {
    for red in [0u8, 1, 9, 10, 15, 16, 99, 159, 160, 254, 255] {
        for green in [0u8, 7, 128, 255] {
            for blue in [0u8, 171, 255] {
                let color = Rgb { red, green, blue };
                assert_eq!(parse_hex_color(&color.to_hex()), Some(color));
            }
        }
    }
}
