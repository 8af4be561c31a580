//! The command line's options and the conversion request they describe.
use crate::color::{white, RgbColor};
use crate::engine::ConversionRequest;
use crate::options::{DuplicateStyle, OutputFormat, ResizeMode};
use vstd::prelude::*;

verus! {

/// The options of one command-line run, already parsed.
#[derive(Debug)]
pub struct CliOptions {
    /// Image files or folders; folders are scanned recursively.
    pub inputs: Vec<String>,
    pub format: OutputFormat,
    /// One folder for every output.
    pub output: Option<String>,
    pub width: Option<u32>,
    pub height: Option<u32>,
    /// Stretch to exactly `width` by `height`.
    pub exact: bool,
    pub percent: Option<u16>,
    pub quality: u8,
    /// The JPEG matte for transparent pixels.
    pub background: Option<RgbColor>,
    pub duplicate_style: DuplicateStyle,
    pub overwrite: bool,
}

/// The resize the options ask for: a percentage first, then an exact size, then a box to
/// fit inside (a missing side unbounded), else the original size.
pub open spec fn requested_resize(o: CliOptions) -> ResizeMode {
    if o.percent is Some {
        ResizeMode::Percent(o.percent->0)
    } else if o.exact {
        ResizeMode::Exact { width: o.width->0, height: o.height->0 }
    } else if o.width is Some || o.height is Some {
        ResizeMode::Fit {
            width: match o.width {
                Some(w) => w,
                None => 0,
            },
            height: match o.height {
                Some(h) => h,
                None => 0,
            },
        }
    } else {
        ResizeMode::Original
    }
}

/// Whether the options set a matte for a format other than JPEG.
pub open spec fn misplaced_background(o: CliOptions) -> bool {
    o.background is Some && o.format != OutputFormat::Jpeg
}

impl CliOptions {
    /// The conversion request these options describe. A matte is refused for any format
    /// but JPEG; without one, transparent pixels are laid on white.
    pub fn into_request(self) -> (r: Result<ConversionRequest, String>)
        requires
            self.percent is None && self.exact ==> self.width is Some && self.height is Some,
        ensures
            match r {
                Err(message) => misplaced_background(self) && message@
                    == "--background is only meaningful with --format jpeg"@,
                Ok(request) => {
                    &&& !misplaced_background(self)
                    &&& request.inputs@ == self.inputs@
                    &&& request.output_dir == self.output
                    &&& request.format == self.format
                    &&& request.resize == requested_resize(self)
                    &&& request.jpeg_quality == self.quality
                    &&& request.jpeg_background == match self.background {
                        Some(c) => c,
                        None => white(),
                    }
                    &&& request.overwrite == self.overwrite
                    &&& request.duplicate_style == self.duplicate_style
                },
            },
    {
        if self.background.is_some() && self.format != OutputFormat::Jpeg {
            return Err(String::from_str("--background is only meaningful with --format jpeg"));
        }
        let resize = if let Some(percent) = self.percent {
            ResizeMode::Percent(percent)
        } else if self.exact {
            ResizeMode::Exact { width: self.width.unwrap(), height: self.height.unwrap() }
        } else if self.width.is_some() || self.height.is_some() {
            ResizeMode::Fit { width: self.width.unwrap_or(0), height: self.height.unwrap_or(0) }
        } else {
            ResizeMode::Original
        };
        let background = match self.background {
            Some(c) => c,
            None => RgbColor::white(),
        };
        Ok(
            ConversionRequest {
                inputs: self.inputs,
                output_dir: self.output,
                format: self.format,
                resize,
                jpeg_quality: self.quality,
                jpeg_background: background,
                overwrite: self.overwrite,
                duplicate_style: self.duplicate_style,
            },
        )
    }
}


/// How the options choose a resize: a percentage wins; otherwise `--exact` stretches to
/// the given sides; otherwise any given width or height is a box to fit inside, keeping the
/// aspect ratio, with 0 for a missing side; with none of these the size is kept. The image
/// is stretched only when `--exact` was given.
pub proof fn lemma_resize_choice(o: CliOptions)
    ensures
        o.percent matches Some(p) ==> requested_resize(o) == ResizeMode::Percent(p),
        o.percent is None && o.exact ==> requested_resize(o) == (ResizeMode::Exact {
            width: o.width->0,
            height: o.height->0,
        }),
        o.percent is None && !o.exact && (o.width is Some || o.height is Some) ==> requested_resize(o)
            == (ResizeMode::Fit {
            width: if o.width is Some {
                o.width->0
            } else {
                0u32
            },
            height: if o.height is Some {
                o.height->0
            } else {
                0u32
            },
        }),
        o.percent is None && !o.exact && o.width is None && o.height is None ==> requested_resize(o)
            == ResizeMode::Original,
        requested_resize(o) is Exact ==> o.exact,
{
}

} // verus!
