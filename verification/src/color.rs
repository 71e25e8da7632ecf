//! Solid colours and their hexadecimal notation.
//!
//! A colour is written as six hexadecimal digits, two for each of red, green
//! and blue, in either case, with or without one `#` in front.

use vstd::prelude::*;
use vstd::string::*;

verus! {

/// A solid colour of three channels, each from 0 to 255.
#[derive(Clone, Copy, Debug, PartialEq, Eq, Structural)]
pub struct Rgb {
    pub red: u8,
    pub green: u8,
    pub blue: u8,
}

/// Whether `c` is one of `0`-`9`, `a`-`f`, `A`-`F`.
pub open spec fn is_hex_digit(c: char) -> bool {
    ('0' <= c <= '9') || ('a' <= c <= 'f') || ('A' <= c <= 'F')
}

/// The number from 0 to 15 that a hexadecimal digit stands for.
pub open spec fn hex_digit_value(c: char) -> int {
    if '0' <= c <= '9' {
        c as int - '0' as int
    } else if 'a' <= c <= 'f' {
        c as int - 'a' as int + 10
    } else {
        c as int - 'A' as int + 10
    }
}

/// The text without its leading `#`, if it has one.
pub open spec fn hex_digits(text: Seq<char>) -> Seq<char> {
    if text.len() > 0 && text[0] == '#' {
        text.skip(1)
    } else {
        text
    }
}

/// Whether the text is a colour: six hexadecimal digits after an optional
/// `#`.
pub open spec fn is_hex_color(text: Seq<char>) -> bool {
    let digits = hex_digits(text);
    &&& digits.len() == 6
    &&& forall|i: int| 0 <= i < 6 ==> is_hex_digit(#[trigger] digits[i])
}

/// The channel that two hexadecimal digits spell.
pub open spec fn hex_pair_value(high: char, low: char) -> u8 {
    (16 * hex_digit_value(high) + hex_digit_value(low)) as u8
}

/// The colour that a text spells, where it is a colour.
pub open spec fn hex_color_value(text: Seq<char>) -> Rgb {
    let digits = hex_digits(text);
    Rgb {
        red: hex_pair_value(digits[0], digits[1]),
        green: hex_pair_value(digits[2], digits[3]),
        blue: hex_pair_value(digits[4], digits[5]),
    }
}

/// The value of the hexadecimal digit with the given ASCII code.
fn hex_digit(code: u8) -> (r: Option<u8>)
    requires
        code <= 0x7f,
    ensures
        r is Some <==> is_hex_digit(code as char),
        r matches Some(v) ==> v == hex_digit_value(code as char) && v < 16,
{
    if 48 <= code && code <= 57 {
        Some(code - 48)
    } else if 97 <= code && code <= 102 {
        Some(code - 97 + 10)
    } else if 65 <= code && code <= 70 {
        Some(code - 65 + 10)
    } else {
        None
    }
}

/// Every colour is written in ASCII.
proof fn lemma_hex_color_is_ascii(text: Seq<char>)
    requires
        is_hex_color(text),
    ensures
        vstd::utf8::is_ascii_chars(text),
{
    let digits = hex_digits(text);
    assert forall|i: int| 0 <= i < text.len() implies '\0' <= #[trigger] text[i] <= '\u{7f}' by {
        if text.len() > 0 && text[0] == '#' {
            if i > 0 {
                assert(text[i] == digits[i - 1]);
                assert(is_hex_digit(digits[i - 1]));
            }
        } else {
            assert(is_hex_digit(digits[i]));
        }
    }
}

/// Reads a colour from its hexadecimal notation. Returns the colour exactly
/// when the text is six hexadecimal digits after an optional `#`, and `None`
/// for every other text.
pub fn parse_hex_color(text: &str) -> (r: Option<Rgb>)
    ensures
        r is Some <==> is_hex_color(text@),
        r matches Some(color) ==> color == hex_color_value(text@),
{
    if !text.is_ascii() {
        proof {
            if is_hex_color(text@) {
                lemma_hex_color_is_ascii(text@);
            }
        }
        return None;
    }
    broadcast use is_ascii_spec_bytes;

    let bytes = text.as_bytes();
    let n = bytes.len();
    assert(n == text@.len());
    assert(forall|i: int| 0 <= i < n ==> bytes@[i] == text@[i] as u8);
    let start: usize = if n > 0 && bytes[0] == 35 {
        1
    } else {
        0
    };
    let ghost digits = hex_digits(text@);
    assert(digits.len() == n - start);
    assert(forall|i: int| 0 <= i < n - start ==> digits[i] == text@[i + start]);
    if n - start != 6 {
        return None;
    }
    assert(forall|i: int| 0 <= i < 6 ==> (bytes@[i + start] as char) == #[trigger] digits[i]);
    let d0 = hex_digit(bytes[start]);
    let d1 = hex_digit(bytes[start + 1]);
    let d2 = hex_digit(bytes[start + 2]);
    let d3 = hex_digit(bytes[start + 3]);
    let d4 = hex_digit(bytes[start + 4]);
    let d5 = hex_digit(bytes[start + 5]);
    assert(digits[0] == bytes@[start as int] as char);
    assert(digits[1] == bytes@[start + 1] as char);
    assert(digits[2] == bytes@[start + 2] as char);
    assert(digits[3] == bytes@[start + 3] as char);
    assert(digits[4] == bytes@[start + 4] as char);
    assert(digits[5] == bytes@[start + 5] as char);
    match (d0, d1, d2, d3, d4, d5) {
        (Some(r1), Some(r0), Some(g1), Some(g0), Some(b1), Some(b0)) => Some(
            Rgb { red: 16 * r1 + r0, green: 16 * g1 + g0, blue: 16 * b1 + b0 },
        ),
        _ => None,
    }
}

/// The lower-case hexadecimal digit that stands for a number from 0 to 15.
pub open spec fn hex_digit_char(value: int) -> char {
    if value < 10 {
        (48 + value) as u8 as char
    } else {
        (87 + value) as u8 as char
    }
}

/// The hexadecimal notation of a colour: a `#` and six lower-case digits.
pub open spec fn hex_text(color: Rgb) -> Seq<char> {
    seq![
        '#',
        hex_digit_char(color.red as int / 16),
        hex_digit_char(color.red as int % 16),
        hex_digit_char(color.green as int / 16),
        hex_digit_char(color.green as int % 16),
        hex_digit_char(color.blue as int / 16),
        hex_digit_char(color.blue as int % 16),
    ]
}

/// The notation of a colour is read back as that colour.
pub proof fn lemma_hex_text_reads_back(color: Rgb)
    ensures
        is_hex_color(hex_text(color)),
        hex_color_value(hex_text(color)) == color,
{
    let text = hex_text(color);
    let digits = hex_digits(text);
    assert(text[0] == '#');
    assert(digits.len() == 6);
    assert(digits[0] == text[1] && digits[1] == text[2] && digits[2] == text[3]);
    assert(digits[3] == text[4] && digits[4] == text[5] && digits[5] == text[6]);
    assert forall|value: int| 0 <= value < 16 implies is_hex_digit(
        #[trigger] hex_digit_char(value),
    ) && hex_digit_value(hex_digit_char(value)) == value by {}
    assert(is_hex_digit(digits[0]) && is_hex_digit(digits[1]) && is_hex_digit(digits[2]));
    assert(is_hex_digit(digits[3]) && is_hex_digit(digits[4]) && is_hex_digit(digits[5]));
}

/// The text of one hexadecimal digit.
fn hex_digit_text(value: u8) -> (text: &'static str)
    requires
        value < 16,
    ensures
        text@.len() == 1,
        text@[0] == hex_digit_char(value as int),
{
    match value {
        0 => {
            proof {
                reveal_strlit("0");
            }
            "0"
        },
        1 => {
            proof {
                reveal_strlit("1");
            }
            "1"
        },
        2 => {
            proof {
                reveal_strlit("2");
            }
            "2"
        },
        3 => {
            proof {
                reveal_strlit("3");
            }
            "3"
        },
        4 => {
            proof {
                reveal_strlit("4");
            }
            "4"
        },
        5 => {
            proof {
                reveal_strlit("5");
            }
            "5"
        },
        6 => {
            proof {
                reveal_strlit("6");
            }
            "6"
        },
        7 => {
            proof {
                reveal_strlit("7");
            }
            "7"
        },
        8 => {
            proof {
                reveal_strlit("8");
            }
            "8"
        },
        9 => {
            proof {
                reveal_strlit("9");
            }
            "9"
        },
        10 => {
            proof {
                reveal_strlit("a");
            }
            "a"
        },
        11 => {
            proof {
                reveal_strlit("b");
            }
            "b"
        },
        12 => {
            proof {
                reveal_strlit("c");
            }
            "c"
        },
        13 => {
            proof {
                reveal_strlit("d");
            }
            "d"
        },
        14 => {
            proof {
                reveal_strlit("e");
            }
            "e"
        },
        _ => {
            proof {
                reveal_strlit("f");
            }
            "f"
        },
    }
}

impl Rgb {
    /// Writes the colour in hexadecimal notation, as a `#` and six
    /// lower-case digits.
    pub fn to_hex(&self) -> (text: String)
        ensures
            text@ == hex_text(*self),
    {
        proof {
            reveal_strlit("#");
        }
        let mut text = String::from_str("#");
        text.append(hex_digit_text(self.red / 16));
        text.append(hex_digit_text(self.red % 16));
        text.append(hex_digit_text(self.green / 16));
        text.append(hex_digit_text(self.green % 16));
        text.append(hex_digit_text(self.blue / 16));
        text.append(hex_digit_text(self.blue % 16));
        assert(text@ =~= hex_text(*self));
        text
    }
}

} // verus!
