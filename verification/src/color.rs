//! The JPEG matte colour and its exact `#RRGGBB` text form.
use crate::text::{hex_byte, hex_digit_char, push_hex_byte, string_from_chars};
use vstd::prelude::*;
use vstd::string::StringSliceAdditionalSpecFns;

verus! {

/// An opaque RGB colour.
#[derive(Clone, Copy, Debug, PartialEq, Eq, Structural)]
pub struct RgbColor {
    pub red: u8,
    pub green: u8,
    pub blue: u8,
}

/// Why a colour text was refused.
#[derive(Clone, Copy, Debug, PartialEq, Eq, Structural)]
pub enum ColorTextError {
    /// The text is not `#` followed by six bytes.
    Form,
    /// One of the three digit pairs is not a base-16 number.
    Digits,
}

/// The value of an ASCII hexadecimal digit byte.
pub open spec fn hex_value(b: u8) -> Option<u8> {
    if 0x30 <= b && b <= 0x39 {
        Some((b - 0x30) as u8)
    } else if 0x61 <= b && b <= 0x66 {
        Some((b - 0x61 + 10) as u8)
    } else if 0x41 <= b && b <= 0x46 {
        Some((b - 0x41 + 10) as u8)
    } else {
        None
    }
}

/// The byte two hexadecimal digits spell, high digit first; anything but two digits is
/// refused.
pub open spec fn hex_pair(x: u8, y: u8) -> Option<u8> {
    match (hex_value(x), hex_value(y)) {
        (Some(a), Some(b)) => Some((a * 16 + b) as u8),
        _ => None,
    }
}

/// Whether a general base-16 number reader takes the two bytes: two digits, or a `+` sign
/// and one digit.
pub open spec fn signed_pair_reads(x: u8, y: u8) -> bool {
    hex_value(y) is Some && (x == 0x2b || hex_value(x) is Some)
}

/// Whether the bytes have the `#` plus six bytes shape.
pub open spec fn rgb_form(b: Seq<u8>) -> bool {
    b.len() == 7 && b[0] == 0x23
}

/// A UTF-8 continuation byte, which never starts a character.
pub open spec fn is_continuation(b: u8) -> bool {
    0x80 <= b && b <= 0xbf
}

/// Inputs on which reading the digit pairs slice by slice, each slice read by a general
/// base-16 number reader, would cut a character in two: the first pair ends inside a
/// character, or it reads and the second pair ends inside one.
pub open spec fn rgb_text_splits_char(b: Seq<u8>) -> bool {
    rgb_form(b) && (is_continuation(b[3]) || (signed_pair_reads(b[1], b[2]) && is_continuation(
        b[5],
    )))
}

/// What an `#RRGGBB` text (given by its UTF-8 bytes) denotes.
pub open spec fn rgb_from_text(b: Seq<u8>) -> Result<RgbColor, ColorTextError> {
    if !rgb_form(b) {
        Err(ColorTextError::Form)
    } else {
        match (hex_pair(b[1], b[2]), hex_pair(b[3], b[4]), hex_pair(b[5], b[6])) {
            (Some(red), Some(green), Some(blue)) => Ok(RgbColor { red, green, blue }),
            _ => Err(ColorTextError::Digits),
        }
    }
}

/// The `#RRGGBB` spelling of a colour, upper case.
pub open spec fn rgb_text(c: RgbColor) -> Seq<char> {
    seq!['#'] + hex_byte(c.red) + hex_byte(c.green) + hex_byte(c.blue)
}

/// The value of a hexadecimal digit byte.
pub fn hex_digit_value(b: u8) -> (r: Option<u8>)
    ensures
        r == hex_value(b),
{
    if 0x30 <= b && b <= 0x39 {
        Some(b - 0x30)
    } else if 0x61 <= b && b <= 0x66 {
        Some(b - 0x61 + 10)
    } else if 0x41 <= b && b <= 0x46 {
        Some(b - 0x41 + 10)
    } else {
        None
    }
}

/// The byte two hexadecimal digits spell.
pub fn parse_hex_pair(x: u8, y: u8) -> (r: Option<u8>)
    ensures
        r == hex_pair(x, y),
{
    match (hex_digit_value(x), hex_digit_value(y)) {
        (Some(a), Some(b)) => Some(a * 16 + b),
        _ => None,
    }
}

impl RgbColor {
    /// Black: every channel 0.
    pub fn black() -> (c: RgbColor)
        ensures
            c == black(),
    {
        RgbColor { red: 0, green: 0, blue: 0 }
    }

    /// White: every channel 255.
    pub fn white() -> (c: RgbColor)
        ensures
            c == white(),
    {
        RgbColor { red: 255, green: 255, blue: 255 }
    }

    pub fn new(red: u8, green: u8, blue: u8) -> (c: RgbColor)
        ensures
            c == (RgbColor { red, green, blue }),
    {
        RgbColor { red, green, blue }
    }

    pub fn components(self) -> (parts: [u8; 3])
        ensures
            parts@ == seq![self.red, self.green, self.blue],
    {
        let parts = [self.red, self.green, self.blue];
        assert(parts@ =~= seq![self.red, self.green, self.blue]);
        parts
    }

    /// The text of a refusal, as a user sees it.
    pub fn error_message(error: ColorTextError) -> (message: String)
        ensures
            message@ == color_error_text(error),
    {
        match error {
            ColorTextError::Form => String::from_str("color must use #RRGGBB"),
            ColorTextError::Digits => String::from_str("color must use hexadecimal #RRGGBB"),
        }
    }

    /// Whether `parse` would have to cut a character of `value` in two.
    pub fn text_splits_char(value: &str) -> (r: bool)
        ensures
            r == rgb_text_splits_char(value.spec_bytes()),
    {
        let b = value.as_bytes();
        if b.len() != 7 || b[0] != 0x23 {
            return false;
        }
        let first_reads = hex_digit_value(b[2]).is_some() && (b[1] == 0x2b || hex_digit_value(
            b[1],
        ).is_some());
        (0x80 <= b[3] && b[3] <= 0xbf) || (first_reads && 0x80 <= b[5] && b[5] <= 0xbf)
    }

    /// Reads an exact `#RRGGBB` colour: `#` and six hexadecimal digits, case-insensitive.
    pub fn parse(value: &str) -> (r: Result<RgbColor, String>)
        requires
            !rgb_text_splits_char(value.spec_bytes()),
        ensures
            match (r, rgb_from_text(value.spec_bytes())) {
                (Ok(c), Ok(d)) => c == d,
                (Err(m), Err(e)) => m@ == color_error_text(e),
                _ => false,
            },
    {
        let b = value.as_bytes();
        if b.len() != 7 || b[0] != 0x23 {
            return Err(Self::error_message(ColorTextError::Form));
        }
        match (parse_hex_pair(b[1], b[2]), parse_hex_pair(b[3], b[4]), parse_hex_pair(b[5], b[6])) {
            (Some(red), Some(green), Some(blue)) => Ok(RgbColor { red, green, blue }),
            _ => Err(Self::error_message(ColorTextError::Digits)),
        }
    }

    /// The `#RRGGBB` text of this colour, upper case.
    pub fn to_hex_string(&self) -> (s: String)
        ensures
            s@ == rgb_text(*self),
    {
        let mut out: Vec<char> = Vec::new();
        out.push('#');
        push_hex_byte(&mut out, self.red);
        push_hex_byte(&mut out, self.green);
        push_hex_byte(&mut out, self.blue);
        assert(out@ =~= rgb_text(*self));
        string_from_chars(out.as_slice())
    }
}

/// The message that goes with each refusal.
pub open spec fn color_error_text(e: ColorTextError) -> Seq<char> {
    match e {
        ColorTextError::Form => "color must use #RRGGBB"@,
        ColorTextError::Digits => "color must use hexadecimal #RRGGBB"@,
    }
}

/// Black.
pub open spec fn black() -> RgbColor {
    RgbColor { red: 0, green: 0, blue: 0 }
}

/// White, the default matte.
pub open spec fn white() -> RgbColor {
    RgbColor { red: 255, green: 255, blue: 255 }
}

impl Default for RgbColor {
    fn default() -> (c: RgbColor)
        ensures
            c == white(),
    {
        RgbColor::white()
    }
}


/// The bytes of a text whose characters are all ASCII: one byte per character.
pub open spec fn ascii_bytes(s: Seq<char>) -> Seq<u8> {
    Seq::new(s.len(), |i: int| s[i] as u8)
}

/// An upper-case hexadecimal digit reads back as its value.
pub proof fn lemma_hex_digit_value(d: nat)
    requires
        d < 16,
    ensures
        hex_value(hex_digit_char(d) as u8) == Some(d as u8),
{
}

/// Two upper-case hexadecimal digits read back as the byte they spell.
pub proof fn lemma_hex_byte_value(b: u8)
    ensures
        hex_pair(hex_byte(b)[0] as u8, hex_byte(b)[1] as u8) == Some(b),
{
    lemma_hex_digit_value((b / 16) as nat);
    lemma_hex_digit_value((b % 16) as nat);
}

/// The `#RRGGBB` text of a colour reads back as the same colour.
pub proof fn lemma_rgb_text_round_trip(c: RgbColor)
    ensures
        rgb_from_text(ascii_bytes(rgb_text(c))) == Ok::<RgbColor, ColorTextError>(c),
{
    let t = rgb_text(c);
    let b = ascii_bytes(t);
    lemma_hex_byte_value(c.red);
    lemma_hex_byte_value(c.green);
    lemma_hex_byte_value(c.blue);
    assert(t.len() == 7);
    assert(b[1] == hex_byte(c.red)[0] as u8 && b[2] == hex_byte(c.red)[1] as u8);
    assert(b[3] == hex_byte(c.green)[0] as u8 && b[4] == hex_byte(c.green)[1] as u8);
    assert(b[5] == hex_byte(c.blue)[0] as u8 && b[6] == hex_byte(c.blue)[1] as u8);
}


/// A text is read as a colour only when it is exactly `#` and six hexadecimal digits, and
/// every such text is read.
pub proof fn lemma_only_exact_hex_is_read(b: Seq<u8>)
    ensures
        rgb_from_text(b) is Ok <==> (rgb_form(b) && forall|i: int| 1 <= i < 7 ==> #[trigger] hex_value(b[i]) is Some),
{
    if rgb_form(b) && (forall|i: int| 1 <= i < 7 ==> #[trigger] hex_value(b[i]) is Some) {
        assert(hex_value(b[1]) is Some && hex_value(b[2]) is Some);
        assert(hex_value(b[3]) is Some && hex_value(b[4]) is Some);
        assert(hex_value(b[5]) is Some && hex_value(b[6]) is Some);
    }
    if rgb_from_text(b) is Ok {
        assert forall|i: int| 1 <= i < 7 implies #[trigger] hex_value(b[i]) is Some by {
            assert(hex_pair(b[1], b[2]) is Some && hex_pair(b[3], b[4]) is Some && hex_pair(b[5], b[6]) is Some);
        }
    }
}

}
