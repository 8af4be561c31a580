//! Decoding, resizing, JPEG matting and encoding of images, in memory. A decoded image is
//! held as plain values: its size, its 8-bit RGBA pixels and, for images of more than eight
//! bits per channel, its 16-bit RGBA samples, in which it is resized.
use crate::color::RgbColor;
use crate::matte::{composite, composite_pixels};
use crate::options::{OutputFormat, ResizeMode};
use crate::resize::{resize_dimensions, target_dimensions, ResizeError};
use image::ImageDecoder;
use image::ImageEncoder;
use vstd::prelude::*;

verus! {

#[verifier::external_type_specification]
#[verifier::external_body]
pub struct ExDynamicImage(image::DynamicImage);

#[verifier::external_type_specification]
#[verifier::external_body]
pub struct ExImageError(image::ImageError);

/// Why one image could not be converted.
#[derive(Debug)]
pub enum ConvertError {
    InvalidResize,
    CreateOutput { path: String, detail: String },
    Decode(String),
    Open(String),
}

/// The text of a conversion error.
pub open spec fn convert_error_text(e: ConvertError) -> Seq<char> {
    match e {
        ConvertError::InvalidResize => "invalid resize dimensions"@,
        ConvertError::CreateOutput { path, detail } => "could not create output folder "@ + path@
            + ": "@ + detail@,
        ConvertError::Decode(detail) => "could not decode image: "@ + detail@,
        ConvertError::Open(detail) => "could not open image: "@ + detail@,
    }
}

impl ConvertError {
    /// The text of this error.
    pub fn message(&self) -> (m: String)
        ensures
            m@ == convert_error_text(*self),
    {
        match self {
            ConvertError::InvalidResize => String::from_str("invalid resize dimensions"),
            ConvertError::CreateOutput { path, detail } => {
                let mut m = String::from_str("could not create output folder ");
                m.append(path.as_str());
                m.append(": ");
                m.append(detail.as_str());
                m
            },
            ConvertError::Decode(detail) => {
                let mut m = String::from_str("could not decode image: ");
                m.append(detail.as_str());
                m
            },
            ConvertError::Open(detail) => {
                let mut m = String::from_str("could not open image: ");
                m.append(detail.as_str());
                m
            },
        }
    }
}

/// A decoded image as plain values: its width and height, and four bytes per pixel (red,
/// green, blue, alpha), row by row. An image of more than eight bits per channel also
/// keeps four 16-bit samples per pixel, so that resizing works at that depth.
#[derive(Debug)]
pub struct Picture {
    pub width: u32,
    pub height: u32,
    pub rgba: Vec<u8>,
    pub wide: Option<Vec<u16>>,
}

/// A picture whose buffers hold exactly four bytes, and four 16-bit samples when kept, per
/// pixel.
pub open spec fn picture_wf(p: Picture) -> bool {
    &&& p.rgba@.len() == 4 * (p.width as int) * (p.height as int)
    &&& p.wide matches Some(s) ==> s@.len() == 4 * (p.width as int) * (p.height as int)
}

/// What `image`'s `PngEncoder` writes for an RGBA image of this size, or `None` when it
/// refuses the image.
pub uninterp spec fn png_encoding(width: u32, height: u32, rgba: Seq<u8>) -> Option<Seq<u8>>;

/// What `image`'s `JpegEncoder` writes, at this quality, for an RGB image of this size, or
/// `None` when it refuses the image.
pub uninterp spec fn jpeg_encoding(width: u32, height: u32, rgb: Seq<u8>, quality: u8) -> Option<
    Seq<u8>,
>;

/// What `image`'s lossless `WebPEncoder` writes for an RGBA image of this size, or `None`
/// when it refuses the image.
pub uninterp spec fn webp_encoding(width: u32, height: u32, rgba: Seq<u8>) -> Option<Seq<u8>>;

/// The RGBA pixels `image`'s `imageops::resize` with the triangle filter gives for an RGBA
/// image resampled to `new_width` x `new_height`.
pub uninterp spec fn resized_rgba(
    width: u32,
    height: u32,
    rgba: Seq<u8>,
    new_width: u32,
    new_height: u32,
) -> Seq<u8>;

/// The 16-bit RGBA samples `image`'s `imageops::resize` with the triangle filter gives for
/// a 16-bit RGBA image resampled to `new_width` x `new_height`.
pub uninterp spec fn resized_rgba16(
    width: u32,
    height: u32,
    rgba: Seq<u16>,
    new_width: u32,
    new_height: u32,
) -> Seq<u16>;

/// The 8-bit RGBA bytes `image`'s `DynamicImage::to_rgba8` gives for a 16-bit RGBA image.
pub uninterp spec fn narrowed_rgba16(width: u32, height: u32, rgba: Seq<u16>) -> Seq<u8>;

/// `image`'s `ImageError` as text, by its `Display`. Nothing is stated of the text.
#[verifier::external_body]
fn image_error_text(error: &image::ImageError) -> String {
    error.to_string()
}

/// `image`'s `ImageReader` over the bytes, with the format first taken from the file
/// name's extension (`ImageFormat::from_path`, `set_format`, as `ImageReader::open` does)
/// and then guessed from the content where that recognises one (`with_guessed_format`),
/// decoded through `into_decoder` and `DynamicImage::from_decoder`, and turned upright by
/// `apply_orientation` with the orientation the decoder reports. The decoder that
/// `into_decoder` returns has no nameable type, so these steps stay in one body. Format
/// guessing and decoding also consult hooks that any code in the process can register, so
/// nothing is stated of the outcome.
#[verifier::external_body]
fn decode_upright(bytes: &[u8], path: &str) -> Result<image::DynamicImage, image::ImageError> {
    let mut reader = image::ImageReader::new(std::io::Cursor::new(bytes));
    if let Ok(format) = image::ImageFormat::from_path(path) {
        reader.set_format(format);
    }
    let reader = reader.with_guessed_format().map_err(image::ImageError::IoError)?;
    let mut decoder = reader.into_decoder()?;
    let orientation = decoder.orientation()?;
    let mut image = image::DynamicImage::from_decoder(decoder)?;
    image.apply_orientation(orientation);
    Ok(image)
}

/// `image`'s `DynamicImage::to_rgba8`, taken apart into width, height and raw bytes.
/// The raw buffer of an `ImageBuffer` holds at least four bytes per pixel, row by row.
#[verifier::external_body]
fn rgba8_parts(image: &image::DynamicImage) -> (parts: (u32, u32, Vec<u8>))
    ensures
        4 * (parts.0 as int) * (parts.1 as int) <= parts.2@.len(),
{
    let rgba = image.to_rgba8();
    let (width, height) = rgba.dimensions();
    (width, height, rgba.into_raw())
}

/// The bytes per pixel and the channels per pixel of the decoded image's colour type:
/// `image`'s `DynamicImage::color`, `ColorType::bytes_per_pixel` and
/// `ColorType::channel_count`. Nothing is stated of them; the library only compares them.
#[verifier::external_body]
fn color_layout(image: &image::DynamicImage) -> (u8, u8) {
    let color = image.color();
    (color.bytes_per_pixel(), color.channel_count())
}

/// `image`'s `DynamicImage::to_rgba16`, taken apart into width, height and raw samples.
/// The raw buffer of an `ImageBuffer` holds at least four samples per pixel, row by row.
#[verifier::external_body]
fn rgba16_parts(image: &image::DynamicImage) -> (parts: (u32, u32, Vec<u16>))
    ensures
        4 * (parts.0 as int) * (parts.1 as int) <= parts.2@.len(),
{
    let rgba = image.to_rgba16();
    let (width, height) = rgba.dimensions();
    (width, height, rgba.into_raw())
}

/// `image`'s `imageops::resize` with the triangle filter on a 16-bit RGBA image, as
/// `DynamicImage::resize_exact` does for one. The result is a new buffer of exactly
/// `new_width` x `new_height` pixels; its samples are named.
#[verifier::external_body]
fn resize_rgba16(width: u32, height: u32, rgba: &[u16], new_width: u32, new_height: u32) -> (r: Vec<u16>)
    requires
        rgba@.len() == 4 * (width as int) * (height as int),
        new_width > 0,
        new_height > 0,
    ensures
        r@ == resized_rgba16(width, height, rgba@, new_width, new_height),
        r@.len() == 4 * (new_width as int) * (new_height as int),
{
    let source = image::ImageBuffer::<image::Rgba<u16>, Vec<u16>>::from_raw(width, height, rgba.to_vec()).unwrap();
    image::imageops::resize(&source, new_width, new_height, image::imageops::FilterType::Triangle).into_raw()
}

/// `image`'s `DynamicImage::to_rgba8` on a 16-bit RGBA image: the same pixels at eight bits
/// per sample, four bytes per pixel; the bytes are named.
#[verifier::external_body]
fn narrow_rgba16(width: u32, height: u32, rgba: &[u16]) -> (r: Vec<u8>)
    requires
        rgba@.len() == 4 * (width as int) * (height as int),
    ensures
        r@ == narrowed_rgba16(width, height, rgba@),
        r@.len() == 4 * (width as int) * (height as int),
{
    let source = image::ImageBuffer::<image::Rgba<u16>, Vec<u16>>::from_raw(width, height, rgba.to_vec()).unwrap();
    image::DynamicImage::ImageRgba16(source).to_rgba8().into_raw()
}

/// `image`'s `imageops::resize` with the triangle (bilinear) filter on an 8-bit RGBA image,
/// as `DynamicImage::resize_exact` does for one. The result is a new buffer of exactly
/// `new_width` x `new_height` pixels; its bytes are named.
#[verifier::external_body]
fn resize_rgba(width: u32, height: u32, rgba: &[u8], new_width: u32, new_height: u32) -> (r: Vec<u8>)
    requires
        rgba@.len() == 4 * (width as int) * (height as int),
        new_width > 0,
        new_height > 0,
    ensures
        r@ == resized_rgba(width, height, rgba@, new_width, new_height),
        r@.len() == 4 * (new_width as int) * (new_height as int),
{
    let source = image::RgbaImage::from_raw(width, height, rgba.to_vec()).unwrap();
    image::imageops::resize(&source, new_width, new_height, image::imageops::FilterType::Triangle).into_raw()
}

/// `image`'s `PngEncoder::write_image` for 8-bit RGBA, into memory. The buffer must hold
/// exactly four bytes per pixel (the encoder asserts it). The encoder refuses some sizes
/// with an error; the in-memory sink itself never fails, so whether the image is refused,
/// and the bytes written when it is not, depend on the arguments alone and are named.
#[verifier::external_body]
fn write_png(width: u32, height: u32, rgba: &[u8]) -> (r: Result<Vec<u8>, image::ImageError>)
    requires
        rgba@.len() == 4 * (width as int) * (height as int),
    ensures
        match r {
            Ok(bytes) => png_encoding(width, height, rgba@) == Some(bytes@),
            Err(_) => png_encoding(width, height, rgba@) is None,
        },
{
    let mut out: Vec<u8> = Vec::new();
    image::codecs::png::PngEncoder::new(&mut out).write_image(rgba, width, height, image::ExtendedColorType::Rgba8)?;
    Ok(out)
}

/// `image`'s `JpegEncoder::new_with_quality` and `write_image` for 8-bit RGB, into memory.
/// The buffer must hold exactly three bytes per pixel (the encoder asserts it). The
/// encoder refuses some sizes (a side of 0 or over 65535) with an error; the in-memory sink
/// itself never fails, so the outcome depends on the arguments alone and is named.
#[verifier::external_body]
fn write_jpeg(width: u32, height: u32, rgb: &[u8], quality: u8) -> (r: Result<Vec<u8>, image::ImageError>)
    requires
        rgb@.len() == 3 * (width as int) * (height as int),
    ensures
        match r {
            Ok(bytes) => jpeg_encoding(width, height, rgb@, quality) == Some(bytes@),
            Err(_) => jpeg_encoding(width, height, rgb@, quality) is None,
        },
{
    let mut out: Vec<u8> = Vec::new();
    image::codecs::jpeg::JpegEncoder::new_with_quality(&mut out, quality).write_image(rgb, width, height, image::ExtendedColorType::Rgb8)?;
    Ok(out)
}

/// `image`'s `WebPEncoder::new_lossless` and `write_image` for 8-bit RGBA, into memory.
/// The buffer must hold exactly four bytes per pixel (the encoder asserts it). The
/// encoder refuses some sizes with an error; the in-memory sink itself never fails, so the
/// outcome depends on the arguments alone and is named.
#[verifier::external_body]
fn write_webp(width: u32, height: u32, rgba: &[u8]) -> (r: Result<Vec<u8>, image::ImageError>)
    requires
        rgba@.len() == 4 * (width as int) * (height as int),
    ensures
        match r {
            Ok(bytes) => webp_encoding(width, height, rgba@) == Some(bytes@),
            Err(_) => webp_encoding(width, height, rgba@) is None,
        },
{
    let mut out: Vec<u8> = Vec::new();
    image::codecs::webp::WebPEncoder::new_lossless(&mut out).write_image(rgba, width, height, image::ExtendedColorType::Rgba8)?;
    Ok(out)
}

/// Whether a resize mode is refused whatever the image.
pub open spec fn resize_mode_rejected(mode: ResizeMode) -> bool {
    match mode {
        ResizeMode::Original => false,
        ResizeMode::Exact { width, height } => width == 0 || height == 0,
        ResizeMode::Fit { width, height } => width == 0 && height == 0,
        ResizeMode::Percent(p) => p == 0,
    }
}

/// The 16-bit samples of a picture brought to `new_width` x `new_height`: the same samples
/// when the size does not change, the resampled ones otherwise.
pub open spec fn resized_samples(p: Picture, samples: Seq<u16>, new_width: u32, new_height: u32) -> Seq<u16> {
    if new_width == p.width && new_height == p.height {
        samples
    } else {
        resized_rgba16(p.width, p.height, samples, new_width, new_height)
    }
}

/// The 8-bit pixels of a picture brought to `new_width` x `new_height`: the same pixels
/// when the size does not change; otherwise resampled at the picture's own depth, 16-bit
/// samples narrowed to bytes afterwards.
pub open spec fn resized_pixels(p: Picture, new_width: u32, new_height: u32) -> Seq<u8> {
    if new_width == p.width && new_height == p.height {
        p.rgba@
    } else {
        match p.wide {
            Some(s) => narrowed_rgba16(
                new_width,
                new_height,
                resized_rgba16(p.width, p.height, s@, new_width, new_height),
            ),
            None => resized_rgba(p.width, p.height, p.rgba@, new_width, new_height),
        }
    }
}

/// `q` is `p` brought to the size `mode` asks for.
pub open spec fn resized_as(p: Picture, mode: ResizeMode, q: Picture) -> bool {
    match target_dimensions(p.width, p.height, mode) {
        Ok((w, h)) => {
            &&& q.width == w
            &&& q.height == h
            &&& picture_wf(q)
            &&& q.rgba@ == resized_pixels(p, w, h)
            &&& match p.wide {
                Some(s) => q.wide matches Some(t) && t@ == resized_samples(p, s@, w, h),
                None => q.wide is None,
            }
        },
        Err(_) => false,
    }
}

/// A target size that differs from the source size has no empty side.
proof fn lemma_changed_target_positive(width: u32, height: u32, mode: ResizeMode)
    ensures
        target_dimensions(width, height, mode) matches Ok((w, h)) ==> (w == width && h == height)
            || (w > 0 && h > 0),
{
}

/// Brings a picture to the size `mode` asks for; a picture already at that size is
/// returned as it is.
pub fn resize(picture: Picture, mode: ResizeMode) -> (r: Result<Picture, ResizeError>)
    requires
        picture_wf(picture),
    ensures
        r is Err <==> resize_mode_rejected(mode),
        match r {
            Ok(q) => resized_as(picture, mode, q),
            Err(e) => target_dimensions(picture.width, picture.height, mode) == Err::<
                (u32, u32),
                ResizeError,
            >(e),
        },
{
    proof {
        lemma_changed_target_positive(picture.width, picture.height, mode);
    }
    match resize_dimensions(picture.width, picture.height, mode) {
        Err(error) => Err(error),
        Ok((new_width, new_height)) => {
            if new_width == picture.width && new_height == picture.height {
                Ok(picture)
            } else {
                match &picture.wide {
                    Some(samples) => {
                        let wide = resize_rgba16(
                            picture.width,
                            picture.height,
                            samples.as_slice(),
                            new_width,
                            new_height,
                        );
                        let rgba = narrow_rgba16(new_width, new_height, wide.as_slice());
                        Ok(Picture { width: new_width, height: new_height, rgba, wide: Some(wide) })
                    },
                    None => {
                        let rgba = resize_rgba(
                            picture.width,
                            picture.height,
                            picture.rgba.as_slice(),
                            new_width,
                            new_height,
                        );
                        Ok(Picture { width: new_width, height: new_height, rgba, wide: None })
                    },
                }
            }
        },
    }
}

/// The picture laid over the opaque `background`, as width, height and RGB bytes.
pub fn composite_for_jpeg(picture: &Picture, background: RgbColor) -> (r: (u32, u32, Vec<u8>))
    requires
        picture_wf(*picture),
    ensures
        r.0 == picture.width,
        r.1 == picture.height,
        r.2@ == composite(
            picture.rgba@,
            (picture.width as nat) * (picture.height as nat),
            background,
        ),
        r.2@.len() == 3 * (r.0 as int) * (r.1 as int),
{
    let ghost area: int = (picture.width as int) * (picture.height as int);
    assert(0 <= area && 4 * (picture.width as int) * (picture.height as int) == 4 * area && 3 * (
    picture.width as int) * (picture.height as int) == 3 * area) by (nonlinear_arith)
        requires
            area == (picture.width as int) * (picture.height as int),
    ;
    let pixels: usize = picture.rgba.len() / 4;
    assert(pixels == (picture.width as nat) * (picture.height as nat));
    let rgb = composite_pixels(picture.rgba.as_slice(), pixels, background);
    (picture.width, picture.height, rgb)
}

/// The JPEG quality handed to the encoder: the requested one, within 1 to 100.
pub open spec fn effective_quality(quality: u8) -> u8 {
    if quality < 1 {
        1
    } else if quality > 100 {
        100
    } else {
        quality
    }
}

/// What encoding pixels in a format yields, or `None` when the encoder refuses them: PNG
/// and lossless WebP keep alpha; JPEG lays the pixels over the matte and uses the quality
/// within 1 to 100.
pub open spec fn encoding_of(
    format: OutputFormat,
    width: u32,
    height: u32,
    rgba: Seq<u8>,
    quality: u8,
    background: RgbColor,
) -> Option<Seq<u8>> {
    match format {
        OutputFormat::Png => png_encoding(width, height, rgba),
        OutputFormat::Jpeg => jpeg_encoding(
            width,
            height,
            composite(rgba, (width as nat) * (height as nat), background),
            effective_quality(quality),
        ),
        OutputFormat::WebP => webp_encoding(width, height, rgba),
    }
}

/// Decodes the bytes of the file at `path`: in the format its content shows, or else the
/// one its extension names. The image is turned upright as its metadata asks and its
/// pixels are taken as 8-bit RGBA and, when its colour type has more than one byte per
/// channel, also as 16-bit RGBA. Whether this succeeds also depends on decoding hooks
/// registered in the process, so only what holds of every outcome is stated.
pub fn decode(bytes: &[u8], path: &str) -> (r: Result<Picture, ConvertError>)
    ensures
        match r {
            Ok(p) => picture_wf(p),
            Err(e) => e is Decode,
        },
{
    match decode_upright(bytes, path) {
        Ok(image) => {
            let (width, height, mut rgba) = rgba8_parts(&image);
            let ghost area: int = (width as int) * (height as int);
            assert(0 <= area && 4 * (width as int) * (height as int) == 4 * area) by (nonlinear_arith)
                requires
                    area == (width as int) * (height as int),
            ;
            let raw_len: usize = rgba.len();
            let w: usize = width as usize;
            let h: usize = height as usize;
            assert(w * h == area);
            let wh: usize = w * h;
            rgba.truncate(4 * wh);
            let (bytes_per_pixel, channels) = color_layout(&image);
            let wide = if bytes_per_pixel > channels {
                let (wide_width, wide_height, mut samples) = rgba16_parts(&image);
                if wide_width == width && wide_height == height {
                    samples.truncate(4 * wh);
                    Some(samples)
                } else {
                    None
                }
            } else {
                None
            };
            Ok(Picture { width, height, rgba, wide })
        },
        Err(error) => Err(ConvertError::Decode(image_error_text(&error))),
    }
}

/// Resizes a decoded picture as `mode` asks; a decoding error is passed on unchanged.
pub fn prepare(decoded: Result<Picture, ConvertError>, mode: ResizeMode) -> (r: Result<
    Picture,
    ConvertError,
>)
    requires
        decoded matches Ok(p) ==> picture_wf(p),
    ensures
        match decoded {
            Err(e) => r == Err::<Picture, ConvertError>(e),
            Ok(p) => if resize_mode_rejected(mode) {
                r matches Err(e) && e is InvalidResize
            } else {
                r matches Ok(q) && resized_as(p, mode, q)
            },
        },
{
    match decoded {
        Err(e) => Err(e),
        Ok(picture) => match resize(picture, mode) {
            Ok(q) => Ok(q),
            Err(ResizeError::InvalidResize) => Err(ConvertError::InvalidResize),
        },
    }
}

/// Encodes RGBA pixels in `format`: PNG and lossless WebP as they are, JPEG laid over
/// `background` at `quality` within 1 to 100. When the encoder refuses the pixels, the
/// error is a decode error.
pub fn encode_pixels(
    format: OutputFormat,
    width: u32,
    height: u32,
    rgba: &[u8],
    quality: u8,
    background: RgbColor,
) -> (r: Result<Vec<u8>, ConvertError>)
    requires
        rgba@.len() == 4 * (width as int) * (height as int),
    ensures
        match r {
            Ok(bytes) => encoding_of(format, width, height, rgba@, quality, background) == Some(
                bytes@,
            ),
            Err(e) => encoding_of(format, width, height, rgba@, quality, background) is None
                && e is Decode,
        },
{
    let written = match format {
        OutputFormat::Png => write_png(width, height, rgba),
        OutputFormat::WebP => write_webp(width, height, rgba),
        OutputFormat::Jpeg => {
            let ghost area: int = (width as int) * (height as int);
            assert(0 <= area && 3 * (width as int) * (height as int) == 3 * area && 4 * (
            width as int) * (height as int) == 4 * area) by (nonlinear_arith)
                requires
                    area == (width as int) * (height as int),
            ;
            let pixels: usize = rgba.len() / 4;
            assert(pixels == area);
            let rgb = composite_pixels(rgba, pixels, background);
            let q: u8 = if quality < 1 {
                1
            } else if quality > 100 {
                100
            } else {
                quality
            };
            write_jpeg(width, height, rgb.as_slice(), q)
        },
    };
    match written {
        Ok(bytes) => Ok(bytes),
        Err(error) => Err(ConvertError::Decode(image_error_text(&error))),
    }
}

/// Encodes a picture in `format`, as `encode_pixels` does with its pixels.
pub fn encode(picture: &Picture, format: OutputFormat, quality: u8, background: RgbColor) -> (r:
    Result<Vec<u8>, ConvertError>)
    requires
        picture_wf(*picture),
    ensures
        match r {
            Ok(bytes) => encoding_of(
                format,
                picture.width,
                picture.height,
                picture.rgba@,
                quality,
                background,
            ) == Some(bytes@),
            Err(e) => encoding_of(
                format,
                picture.width,
                picture.height,
                picture.rgba@,
                quality,
                background,
            ) is None && e is Decode,
        },
{
    encode_pixels(format, picture.width, picture.height, picture.rgba.as_slice(), quality, background)
}


/// Each output format is written by its own encoder: PNG by the PNG encoder and WebP by the
/// lossless WebP encoder, both from the RGBA pixels as they are; JPEG by the JPEG encoder
/// from the pixels laid over the matte, at the requested quality when it lies in 1 to 100
/// and at the nearer bound otherwise.
pub proof fn lemma_each_format_has_its_encoder(
    width: u32,
    height: u32,
    rgba: Seq<u8>,
    quality: u8,
    background: RgbColor,
)
    ensures
        encoding_of(OutputFormat::Png, width, height, rgba, quality, background) == png_encoding(
            width,
            height,
            rgba,
        ),
        encoding_of(OutputFormat::WebP, width, height, rgba, quality, background) == webp_encoding(
            width,
            height,
            rgba,
        ),
        1 <= quality <= 100 ==> encoding_of(OutputFormat::Jpeg, width, height, rgba, quality, background)
            == jpeg_encoding(
            width,
            height,
            composite(rgba, (width as nat) * (height as nat), background),
            quality,
        ),
        quality == 0 ==> encoding_of(OutputFormat::Jpeg, width, height, rgba, quality, background)
            == jpeg_encoding(
            width,
            height,
            composite(rgba, (width as nat) * (height as nat), background),
            1,
        ),
        quality > 100 ==> encoding_of(OutputFormat::Jpeg, width, height, rgba, quality, background)
            == jpeg_encoding(
            width,
            height,
            composite(rgba, (width as nat) * (height as nat), background),
            100,
        ),
{
}

}
