//! Conversion options: output format, resize mode and collision naming style.
use crate::text::{
    chars_eq_ignore_case, chars_of, decimal, eq_ignore_case, lower_seq, push_all, push_decimal,
    push_str,
    string_from_chars,
};
use vstd::prelude::*;

verus! {

/// The encoded format of every output.
#[derive(Clone, Copy, Debug, PartialEq, Eq, Structural)]
pub enum OutputFormat {
    Png,
    Jpeg,
    WebP,
}

/// How each image is resized before it is encoded.
#[derive(Clone, Copy, Debug, PartialEq, Eq, Structural)]
pub enum ResizeMode {
    /// Keep the source dimensions.
    Original,
    /// Scale to fit inside the box, keeping the aspect ratio; 0 leaves a side unbounded.
    Fit { width: u32, height: u32 },
    /// Stretch to exactly these dimensions.
    Exact { width: u32, height: u32 },
    /// Scale both sides by this percentage.
    Percent(u16),
}

/// How a second output with a taken name is renamed.
#[derive(Clone, Copy, Debug, PartialEq, Eq, Structural)]
pub enum DuplicateStyle {
    /// `stem-2`
    Dash,
    /// `stem_2`
    Underscore,
    /// `stem (2)`
    Parenthesized,
    /// `stem-copy`, then `stem-copy-2`
    Copy,
}

/// The file extension written for each format.
pub open spec fn extension_text(format: OutputFormat) -> Seq<char> {
    match format {
        OutputFormat::Png => "png"@,
        OutputFormat::Jpeg => "jpg"@,
        OutputFormat::WebP => "webp"@,
    }
}

/// The `number`-th name for a file whose first choice, `stem`, is taken.
pub open spec fn duplicate_name(style: DuplicateStyle, stem: Seq<char>, number: nat) -> Seq<char> {
    match style {
        DuplicateStyle::Dash => stem + seq!['-'] + decimal(number),
        DuplicateStyle::Underscore => stem + seq!['_'] + decimal(number),
        DuplicateStyle::Parenthesized => stem + seq![' ', '('] + decimal(number) + seq![')'],
        DuplicateStyle::Copy => if number == 2 {
            stem + "-copy"@
        } else {
            stem + "-copy-"@ + decimal((number - 1) as nat)
        },
    }
}

/// The lower-case word that names each style.
pub open spec fn style_word(style: DuplicateStyle) -> Seq<char> {
    match style {
        DuplicateStyle::Dash => "dash"@,
        DuplicateStyle::Underscore => "underscore"@,
        DuplicateStyle::Parenthesized => "parenthesized"@,
        DuplicateStyle::Copy => "copy"@,
    }
}

/// The style a word names, ignoring ASCII case.
pub open spec fn style_from_word(word: Seq<char>) -> Option<DuplicateStyle> {
    if eq_ignore_case(word, "dash"@) {
        Some(DuplicateStyle::Dash)
    } else if eq_ignore_case(word, "underscore"@) {
        Some(DuplicateStyle::Underscore)
    } else if eq_ignore_case(word, "parenthesized"@) {
        Some(DuplicateStyle::Parenthesized)
    } else if eq_ignore_case(word, "copy"@) {
        Some(DuplicateStyle::Copy)
    } else {
        None
    }
}

/// The word of every style reads back as that style.
pub proof fn lemma_style_word_round_trip(style: DuplicateStyle)
    ensures
        style_from_word(style_word(style)) == Some(style),
{
    reveal_strlit("dash");
    reveal_strlit("underscore");
    reveal_strlit("parenthesized");
    reveal_strlit("copy");
    let w = style_word(style);
    assert(lower_seq(w) =~= w);
    assert(lower_seq("dash"@) =~= "dash"@);
    assert(lower_seq("underscore"@) =~= "underscore"@);
    assert(lower_seq("parenthesized"@) =~= "parenthesized"@);
    assert(lower_seq("copy"@) =~= "copy"@);
    assert(("dash"@)[0] != ("copy"@)[0]);
}

impl OutputFormat {
    /// The extension of files in this format, without the dot.
    pub fn extension(self) -> (ext: &'static str)
        ensures
            ext@ == extension_text(self),
    {
        match self {
            OutputFormat::Png => "png",
            OutputFormat::Jpeg => "jpg",
            OutputFormat::WebP => "webp",
        }
    }
}

impl Default for OutputFormat {
    fn default() -> (f: OutputFormat)
        ensures
            f == OutputFormat::Png,
    {
        OutputFormat::Png
    }
}

impl Default for ResizeMode {
    fn default() -> (m: ResizeMode)
        ensures
            m == ResizeMode::Original,
    {
        ResizeMode::Original
    }
}

impl Default for DuplicateStyle {
    fn default() -> (s: DuplicateStyle)
        ensures
            s == DuplicateStyle::Dash,
    {
        DuplicateStyle::Dash
    }
}

impl DuplicateStyle {
    /// The `number`-th alternative name for `stem`.
    pub fn name(self, stem: &str, number: usize) -> (name: String)
        requires
            self == DuplicateStyle::Copy ==> number >= 1,
        ensures
            name@ == duplicate_name(self, stem@, number as nat),
    {
        let mut out: Vec<char> = Vec::new();
        push_str(&mut out, stem);
        match self {
            DuplicateStyle::Dash => {
                out.push('-');
                push_decimal(&mut out, number as u64);
            },
            DuplicateStyle::Underscore => {
                out.push('_');
                push_decimal(&mut out, number as u64);
            },
            DuplicateStyle::Parenthesized => {
                out.push(' ');
                out.push('(');
                push_decimal(&mut out, number as u64);
                out.push(')');
            },
            DuplicateStyle::Copy => {
                if number == 2 {
                    push_str(&mut out, "-copy");
                } else {
                    push_str(&mut out, "-copy-");
                    push_decimal(&mut out, (number - 1) as u64);
                }
            },
        }
        assert(out@ =~= duplicate_name(self, stem@, number as nat));
        string_from_chars(out.as_slice())
    }

    /// The lower-case word for this style.
    pub fn to_string(&self) -> (word: String)
        ensures
            word@ == style_word(*self),
    {
        match self {
            DuplicateStyle::Dash => String::from_str("dash"),
            DuplicateStyle::Underscore => String::from_str("underscore"),
            DuplicateStyle::Parenthesized => String::from_str("parenthesized"),
            DuplicateStyle::Copy => String::from_str("copy"),
        }
    }

    /// Reads a style word; ASCII case does not matter.
    pub fn parse(value: &str) -> (r: Result<DuplicateStyle, String>)
        ensures
            match r {
                Ok(style) => style_from_word(value@) == Some(style),
                Err(message) => style_from_word(value@) is None && message@
                    == "expected dash, underscore, parenthesized, or copy"@,
            },
    {
        let word = chars_of(value);
        let dash = chars_of("dash");
        let underscore = chars_of("underscore");
        let parenthesized = chars_of("parenthesized");
        let copy = chars_of("copy");
        if chars_eq_ignore_case(word.as_slice(), dash.as_slice()) {
            Ok(DuplicateStyle::Dash)
        } else if chars_eq_ignore_case(word.as_slice(), underscore.as_slice()) {
            Ok(DuplicateStyle::Underscore)
        } else if chars_eq_ignore_case(word.as_slice(), parenthesized.as_slice()) {
            Ok(DuplicateStyle::Parenthesized)
        } else if chars_eq_ignore_case(word.as_slice(), copy.as_slice()) {
            Ok(DuplicateStyle::Copy)
        } else {
            Err(String::from_str("expected dash, underscore, parenthesized, or copy"))
        }
    }
}

}
