//! Colour tokens of the built-in themes and their `#RRGGBB[AA]` text form.
use crate::color::{ascii_bytes, hex_pair, lemma_hex_byte_value, parse_hex_pair, RgbColor};
use crate::text::{hex_byte, push_hex_byte, string_from_chars};
use vstd::prelude::*;
use vstd::std_specs::convert::FromSpecImpl;
use vstd::string::StringSliceAdditionalSpecFns;

verus! {

/// The theme a user picked before saved themes existed.
#[derive(Clone, Copy, Debug, PartialEq, Eq, Structural)]
pub enum ThemeMode {
    Light,
    Dark,
    Glass,
    Custom,
}

impl Default for ThemeMode {
    fn default() -> (m: ThemeMode)
        ensures
            m == ThemeMode::Dark,
    {
        ThemeMode::Dark
    }
}

/// A colour token: red, green, blue and alpha.
#[derive(Clone, Copy, Debug, PartialEq, Eq)]
pub struct HexColor(pub [u8; 4]);

/// The channels of a token, in order.
pub open spec fn channels(c: HexColor) -> Seq<u8> {
    c.0@
}

/// The opaque token with the given channels.
pub open spec fn rgb_token(r: u8, g: u8, b: u8) -> HexColor {
    HexColor([r, g, b, 255])
}

/// An opaque token.
pub fn hex(r: u8, g: u8, b: u8) -> (c: HexColor)
    ensures
        c == rgb_token(r, g, b),
{
    HexColor([r, g, b, 255])
}

/// A token stored as its list of channels: three channels are an opaque colour, four carry
/// alpha, and any other count is refused.
pub open spec fn token_from_channels(c: Seq<u8>) -> Option<HexColor> {
    if c.len() == 3 {
        Some(rgb_token(c[0], c[1], c[2]))
    } else if c.len() == 4 {
        Some(HexColor([c[0], c[1], c[2], c[3]]))
    } else {
        None
    }
}

impl HexColor {
    /// The token stored as its list of channels, or `None` for a count other than three
    /// or four.
    pub fn from_channels(c: &[u8]) -> (r: Option<HexColor>)
        ensures
            r == token_from_channels(c@),
    {
        if c.len() == 3 {
            Some(HexColor([c[0], c[1], c[2], 255]))
        } else if c.len() == 4 {
            Some(HexColor([c[0], c[1], c[2], c[3]]))
        } else {
            None
        }
    }
}

/// Why a token text was refused.
#[derive(Clone, Copy, Debug, PartialEq, Eq, Structural)]
pub enum HexTextError {
    /// Not `#` followed by six or eight bytes.
    Form,
    /// A digit pair is not a base-16 number.
    Digits,
}

/// What a `#RRGGBB` (opaque) or `#RRGGBBAA` text, given by its bytes, denotes: the
/// channels in order.
pub open spec fn hex_from_text(b: Seq<u8>) -> Result<Seq<u8>, HexTextError> {
    if b.len() == 7 && b[0] == 0x23 {
        match (hex_pair(b[1], b[2]), hex_pair(b[3], b[4]), hex_pair(b[5], b[6])) {
            (Some(r), Some(g), Some(bl)) => Ok(seq![r, g, bl, 255u8]),
            _ => Err(HexTextError::Digits),
        }
    } else if b.len() == 9 && b[0] == 0x23 {
        match (hex_pair(b[1], b[2]), hex_pair(b[3], b[4]), hex_pair(b[5], b[6]), hex_pair(b[7], b[8])) {
            (Some(r), Some(g), Some(bl), Some(a)) => Ok(seq![r, g, bl, a]),
            _ => Err(HexTextError::Digits),
        }
    } else {
        Err(HexTextError::Form)
    }
}

/// The message that goes with each refusal.
pub open spec fn hex_error_text(e: HexTextError) -> Seq<char> {
    match e {
        HexTextError::Form => "color must use #RRGGBB or #RRGGBBAA"@,
        HexTextError::Digits => "color must use hexadecimal #RRGGBB or #RRGGBBAA"@,
    }
}

/// The text of a token: `#RRGGBB` when opaque, `#RRGGBBAA` otherwise, upper case.
pub open spec fn hex_text(c: HexColor) -> Seq<char> {
    let rgb = seq!['#'] + hex_byte(c.0@[0]) + hex_byte(c.0@[1]) + hex_byte(c.0@[2]);
    if c.0@[3] == 255 {
        rgb
    } else {
        rgb + hex_byte(c.0@[3])
    }
}

/// The text of a token reads back as the same channels, alpha included.
pub proof fn lemma_hex_text_round_trip(c: HexColor)
    ensures
        hex_from_text(ascii_bytes(hex_text(c))) == Ok::<Seq<u8>, HexTextError>(c.0@),
{
    let t = hex_text(c);
    let b = ascii_bytes(t);
    let ch = c.0@;
    lemma_hex_byte_value(ch[0]);
    lemma_hex_byte_value(ch[1]);
    lemma_hex_byte_value(ch[2]);
    lemma_hex_byte_value(ch[3]);
    assert(b[1] == hex_byte(ch[0])[0] as u8 && b[2] == hex_byte(ch[0])[1] as u8);
    assert(b[3] == hex_byte(ch[1])[0] as u8 && b[4] == hex_byte(ch[1])[1] as u8);
    assert(b[5] == hex_byte(ch[2])[0] as u8 && b[6] == hex_byte(ch[2])[1] as u8);
    if ch[3] == 255 {
        assert(b.len() == 7);
        assert(seq![ch[0], ch[1], ch[2], 255u8] =~= ch);
    } else {
        assert(b.len() == 9);
        assert(b[7] == hex_byte(ch[3])[0] as u8 && b[8] == hex_byte(ch[3])[1] as u8);
        assert(seq![ch[0], ch[1], ch[2], ch[3]] =~= ch);
    }
}

impl HexColor {
    /// Whether two tokens hold the same channels.
    pub fn same(&self, other: &HexColor) -> (r: bool)
        ensures
            r == (*self == *other),
    {
        broadcast use vstd::array::group_array_axioms;

        let r = self.0[0] == other.0[0] && self.0[1] == other.0[1] && self.0[2] == other.0[2]
            && self.0[3] == other.0[3];
        if r {
            assert(self.0 =~= other.0);
        }
        r
    }

    /// Reads `#RRGGBB` (opaque) or `#RRGGBBAA`; the digits are case-insensitive.
    pub fn parse(value: &str) -> (r: Result<HexColor, String>)
        ensures
            match (r, hex_from_text(value.spec_bytes())) {
                (Ok(c), Ok(parts)) => c.0@ == parts,
                (Err(m), Err(e)) => m@ == hex_error_text(e),
                _ => false,
            },
    {
        let b = value.as_bytes();
        if b.len() == 7 && b[0] == 0x23 {
            match (parse_hex_pair(b[1], b[2]), parse_hex_pair(b[3], b[4]), parse_hex_pair(b[5], b[6])) {
                (Some(r), Some(g), Some(bl)) => {
                    let c = HexColor([r, g, bl, 255]);
                    assert(c.0@ =~= seq![r, g, bl, 255u8]);
                    Ok(c)
                },
                _ => Err(String::from_str("color must use hexadecimal #RRGGBB or #RRGGBBAA")),
            }
        } else if b.len() == 9 && b[0] == 0x23 {
            match (
                parse_hex_pair(b[1], b[2]),
                parse_hex_pair(b[3], b[4]),
                parse_hex_pair(b[5], b[6]),
                parse_hex_pair(b[7], b[8]),
            ) {
                (Some(r), Some(g), Some(bl), Some(a)) => {
                    let c = HexColor([r, g, bl, a]);
                    assert(c.0@ =~= seq![r, g, bl, a]);
                    Ok(c)
                },
                _ => Err(String::from_str("color must use hexadecimal #RRGGBB or #RRGGBBAA")),
            }
        } else {
            Err(String::from_str("color must use #RRGGBB or #RRGGBBAA"))
        }
    }

    /// The text of this token: `#RRGGBB` when opaque, `#RRGGBBAA` otherwise.
    pub fn to_hex_string(&self) -> (s: String)
        ensures
            s@ == hex_text(*self),
    {
        let mut out: Vec<char> = Vec::new();
        out.push('#');
        push_hex_byte(&mut out, self.0[0]);
        push_hex_byte(&mut out, self.0[1]);
        push_hex_byte(&mut out, self.0[2]);
        if self.0[3] != 255 {
            push_hex_byte(&mut out, self.0[3]);
        }
        assert(out@ =~= hex_text(*self));
        string_from_chars(out.as_slice())
    }
}

impl From<RgbColor> for HexColor {
    fn from(value: RgbColor) -> (c: HexColor) {
        HexColor([value.red, value.green, value.blue, 255])
    }
}

impl FromSpecImpl<RgbColor> for HexColor {
    open spec fn obeys_from_spec() -> bool {
        true
    }

    open spec fn from_spec(v: RgbColor) -> HexColor {
        HexColor([v.red, v.green, v.blue, 255])
    }
}

impl From<HexColor> for RgbColor {
    fn from(value: HexColor) -> (c: RgbColor) {
        RgbColor::new(value.0[0], value.0[1], value.0[2])
    }
}

impl FromSpecImpl<HexColor> for RgbColor {
    open spec fn obeys_from_spec() -> bool {
        true
    }

    open spec fn from_spec(v: HexColor) -> RgbColor {
        RgbColor { red: v.0@[0], green: v.0@[1], blue: v.0@[2] }
    }
}


/// The seventeen colour tokens of a theme.
#[derive(Clone, Copy, Debug, PartialEq, Eq)]
pub struct ThemeTokens {
    pub canvas: HexColor,
    pub background: HexColor,
    pub panel: HexColor,
    pub control: HexColor,
    pub field: HexColor,
    pub row_alt: HexColor,
    pub border: HexColor,
    pub text: HexColor,
    pub muted: HexColor,
    pub accent: HexColor,
    pub on_accent: HexColor,
    pub danger: HexColor,
    pub title: HexColor,
    pub title_text: HexColor,
    pub title_muted: HexColor,
    pub title_rule: HexColor,
    pub title_control: HexColor,
}

/// The tokens in their fixed order, as the editor lists them.
pub open spec fn token_list(t: ThemeTokens) -> Seq<HexColor> {
    seq![t.canvas, t.background, t.panel, t.control, t.field, t.row_alt, t.border, t.text, t.muted, t.accent, t.on_accent, t.danger, t.title, t.title_text, t.title_muted, t.title_rule, t.title_control]
}

/// The light theme's tokens.
pub open spec fn light_tokens() -> ThemeTokens {
    ThemeTokens {
        canvas: rgb_token(0xe9, 0xe7, 0xe2),
        background: rgb_token(0xf6, 0xf5, 0xf2),
        panel: rgb_token(0xfc, 0xfb, 0xf9),
        control: rgb_token(0xec, 0xeb, 0xe6),
        field: rgb_token(0xff, 0xff, 0xff),
        row_alt: rgb_token(0xff, 0xff, 0xff),
        border: rgb_token(0xdc, 0xd9, 0xd3),
        text: rgb_token(0x26, 0x28, 0x2a),
        muted: rgb_token(0x83, 0x81, 0x7b),
        accent: rgb_token(0x0f, 0x9d, 0x84),
        on_accent: rgb_token(0xff, 0xff, 0xff),
        danger: rgb_token(0xb0, 0x4b, 0x2f),
        title: rgb_token(0x26, 0x28, 0x2a),
        title_text: rgb_token(0xf6, 0xf5, 0xf2),
        title_muted: rgb_token(0xa3, 0xa1, 0x9b),
        title_rule: rgb_token(0x43, 0x46, 0x4a),
        title_control: rgb_token(0x3a, 0x3d, 0x41),
    }
}

/// The dark theme's tokens.
pub open spec fn dark_tokens() -> ThemeTokens {
    ThemeTokens {
        canvas: rgb_token(0x10, 0x12, 0x15),
        background: rgb_token(0x19, 0x1b, 0x1f),
        panel: rgb_token(0x1f, 0x22, 0x26),
        control: rgb_token(0x24, 0x27, 0x2c),
        field: rgb_token(0x24, 0x27, 0x2c),
        row_alt: rgb_token(0x24, 0x27, 0x2c),
        border: rgb_token(0x33, 0x37, 0x3d),
        text: rgb_token(0xe8, 0xea, 0xed),
        muted: rgb_token(0x8b, 0x91, 0x9a),
        accent: rgb_token(0x2f, 0xc9, 0xa2),
        on_accent: rgb_token(0x10, 0x24, 0x1c),
        danger: rgb_token(0xf0, 0x87, 0x6a),
        title: rgb_token(0x11, 0x13, 0x16),
        title_text: rgb_token(0xe8, 0xea, 0xed),
        title_muted: rgb_token(0x8b, 0x91, 0x9a),
        title_rule: rgb_token(0x33, 0x37, 0x3d),
        title_control: rgb_token(0x24, 0x27, 0x2c),
    }
}

/// The glass theme's tokens: the dark theme with cooler, lighter surfaces; accent and on-accent stay.
pub open spec fn glass_tokens() -> ThemeTokens {
    ThemeTokens {
        canvas: rgb_token(0x1b, 0x2a, 0x3a),
        background: rgb_token(0x16, 0x1c, 0x22),
        panel: rgb_token(0x25, 0x2d, 0x35),
        control: rgb_token(0x31, 0x39, 0x42),
        field: rgb_token(0x2b, 0x34, 0x3d),
        row_alt: rgb_token(0x29, 0x32, 0x3a),
        border: rgb_token(0x56, 0x60, 0x69),
        text: rgb_token(0xf2, 0xf5, 0xf7),
        muted: rgb_token(0x9e, 0xa8, 0xb0),
        accent: rgb_token(0x2f, 0xc9, 0xa2),
        on_accent: rgb_token(0x10, 0x24, 0x1c),
        danger: rgb_token(0xff, 0x9d, 0x80),
        title: rgb_token(0x0a, 0x0e, 0x12),
        title_text: rgb_token(0xf2, 0xf5, 0xf7),
        title_muted: rgb_token(0x9a, 0xa2, 0xaa),
        title_rule: rgb_token(0x55, 0x60, 0x69),
        title_control: rgb_token(0x31, 0x39, 0x42),
    }
}

impl ThemeTokens {
    /// Whether two token sets are identical.
    pub fn same_tokens(&self, other: &ThemeTokens) -> (r: bool)
        ensures
            r == (*self == *other),
    {
        self.canvas.same(&other.canvas)
            && self.background.same(&other.background)
            && self.panel.same(&other.panel)
            && self.control.same(&other.control)
            && self.field.same(&other.field)
            && self.row_alt.same(&other.row_alt)
            && self.border.same(&other.border)
            && self.text.same(&other.text)
            && self.muted.same(&other.muted)
            && self.accent.same(&other.accent)
            && self.on_accent.same(&other.on_accent)
            && self.danger.same(&other.danger)
            && self.title.same(&other.title)
            && self.title_text.same(&other.title_text)
            && self.title_muted.same(&other.title_muted)
            && self.title_rule.same(&other.title_rule)
            && self.title_control.same(&other.title_control)
    }

    /// The built-in light theme.
    pub fn light() -> (t: ThemeTokens)
        ensures
            t == light_tokens(),
    {
        ThemeTokens {
            canvas: hex(0xe9, 0xe7, 0xe2),
            background: hex(0xf6, 0xf5, 0xf2),
            panel: hex(0xfc, 0xfb, 0xf9),
            control: hex(0xec, 0xeb, 0xe6),
            field: hex(0xff, 0xff, 0xff),
            row_alt: hex(0xff, 0xff, 0xff),
            border: hex(0xdc, 0xd9, 0xd3),
            text: hex(0x26, 0x28, 0x2a),
            muted: hex(0x83, 0x81, 0x7b),
            accent: hex(0x0f, 0x9d, 0x84),
            on_accent: hex(0xff, 0xff, 0xff),
            danger: hex(0xb0, 0x4b, 0x2f),
            title: hex(0x26, 0x28, 0x2a),
            title_text: hex(0xf6, 0xf5, 0xf2),
            title_muted: hex(0xa3, 0xa1, 0x9b),
            title_rule: hex(0x43, 0x46, 0x4a),
            title_control: hex(0x3a, 0x3d, 0x41),
        }
    }

    /// The built-in dark theme.
    pub fn dark() -> (t: ThemeTokens)
        ensures
            t == dark_tokens(),
    {
        ThemeTokens {
            canvas: hex(0x10, 0x12, 0x15),
            background: hex(0x19, 0x1b, 0x1f),
            panel: hex(0x1f, 0x22, 0x26),
            control: hex(0x24, 0x27, 0x2c),
            field: hex(0x24, 0x27, 0x2c),
            row_alt: hex(0x24, 0x27, 0x2c),
            border: hex(0x33, 0x37, 0x3d),
            text: hex(0xe8, 0xea, 0xed),
            muted: hex(0x8b, 0x91, 0x9a),
            accent: hex(0x2f, 0xc9, 0xa2),
            on_accent: hex(0x10, 0x24, 0x1c),
            danger: hex(0xf0, 0x87, 0x6a),
            title: hex(0x11, 0x13, 0x16),
            title_text: hex(0xe8, 0xea, 0xed),
            title_muted: hex(0x8b, 0x91, 0x9a),
            title_rule: hex(0x33, 0x37, 0x3d),
            title_control: hex(0x24, 0x27, 0x2c),
        }
    }

    /// The built-in glass theme: the dark tokens with its own surfaces.
    pub fn glass() -> (t: ThemeTokens)
        ensures
            t == glass_tokens(),
    {
        let mut tokens = ThemeTokens::dark();
        tokens.canvas = hex(0x1b, 0x2a, 0x3a);
        tokens.background = hex(0x16, 0x1c, 0x22);
        tokens.panel = hex(0x25, 0x2d, 0x35);
        tokens.control = hex(0x31, 0x39, 0x42);
        tokens.field = hex(0x2b, 0x34, 0x3d);
        tokens.row_alt = hex(0x29, 0x32, 0x3a);
        tokens.border = hex(0x56, 0x60, 0x69);
        tokens.text = hex(0xf2, 0xf5, 0xf7);
        tokens.muted = hex(0x9e, 0xa8, 0xb0);
        tokens.danger = hex(0xff, 0x9d, 0x80);
        tokens.title = hex(0x0a, 0x0e, 0x12);
        tokens.title_text = hex(0xf2, 0xf5, 0xf7);
        tokens.title_muted = hex(0x9a, 0xa2, 0xaa);
        tokens.title_rule = hex(0x55, 0x60, 0x69);
        tokens.title_control = hex(0x31, 0x39, 0x42);
        tokens
    }
}

/// The `#RRGGBB[AA]` text of every token, in the editor's order.
pub fn token_strings(tokens: &ThemeTokens) -> (strings: Vec<String>)
    ensures
        strings@.len() == 17,
        forall|i: int| 0 <= i < 17 ==> #[trigger] strings@[i]@ == hex_text(token_list(*tokens)[i]),
{
    let list = [tokens.canvas, tokens.background, tokens.panel, tokens.control, tokens.field, tokens.row_alt, tokens.border, tokens.text, tokens.muted, tokens.accent, tokens.on_accent, tokens.danger, tokens.title, tokens.title_text, tokens.title_muted, tokens.title_rule, tokens.title_control];
    assert(list@ =~= token_list(*tokens));
    let mut strings: Vec<String> = Vec::new();
    let mut i: usize = 0;
    while i < 17
        invariant
            0 <= i <= 17,
            list@ == token_list(*tokens),
            strings@.len() == i,
            forall|k: int| 0 <= k < i ==> #[trigger] strings@[k]@ == hex_text(token_list(*tokens)[k]),
        decreases 17 - i,
    {
        strings.push(list[i].to_hex_string());
        i = i + 1;
    }
    strings
}

/// Appearance preferences of the single-theme settings: one active theme, one custom token
/// set, glass options and the JPEG matte.
#[derive(Clone, Debug, PartialEq)]
pub struct Preferences {
    pub active_theme: ThemeMode,
    pub custom_tokens: ThemeTokens,
    pub jpeg_background: HexColor,
    pub glass_translucency: u8,
    pub glass_blur: u8,
    pub solid_when_inactive: bool,
}

impl Default for Preferences {
    fn default() -> (p: Preferences)
        ensures
            p.active_theme == ThemeMode::Dark,
            p.custom_tokens == dark_tokens(),
            p.jpeg_background == rgb_token(255, 255, 255),
            p.glass_translucency == 72,
            p.glass_blur == 18,
            !p.solid_when_inactive,
    {
        Preferences {
            active_theme: ThemeMode::Dark,
            custom_tokens: ThemeTokens::dark(),
            jpeg_background: hex(255, 255, 255),
            glass_translucency: 72,
            glass_blur: 18,
            solid_when_inactive: false,
        }
    }
}

impl Preferences {
    /// The tokens of the active theme: a built-in set, or the custom one.
    pub fn tokens(&self) -> (t: ThemeTokens)
        ensures
            self.active_theme == ThemeMode::Light ==> t == light_tokens(),
            self.active_theme == ThemeMode::Dark ==> t == dark_tokens(),
            self.active_theme == ThemeMode::Glass ==> t == glass_tokens(),
            self.active_theme == ThemeMode::Custom ==> t == self.custom_tokens,
    {
        match self.active_theme {
            ThemeMode::Light => ThemeTokens::light(),
            ThemeMode::Dark => ThemeTokens::dark(),
            ThemeMode::Glass => ThemeTokens::glass(),
            ThemeMode::Custom => self.custom_tokens,
        }
    }
}

}
