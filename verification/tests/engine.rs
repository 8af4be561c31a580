use image::{DynamicImage, GenericImageView, ImageBuffer, ImageFormat, Rgba};
use image_converter::color::RgbColor;
use image_converter::engine::{
    collect_inputs, is_supported_input, ConversionRequest, Converter, Discovered, PlanningFailure,
};
use image_converter::imaging::{
    composite_for_jpeg, decode, encode, encode_pixels, prepare, resize, ConvertError, Picture,
};
use image_converter::options::{DuplicateStyle, OutputFormat, ResizeMode};
use image_converter::resize::{resize_dimensions, ResizeError};
use std::io::Cursor;
use std::path::Path;

const ROOT: &str = "/nonexistent-image-converter-tests";

fn png_bytes(image: DynamicImage) -> Vec<u8> {
    let mut out = Cursor::new(Vec::new());
    image.write_to(&mut out, ImageFormat::Png).unwrap();
    out.into_inner()
}

fn sample(width: u32, height: u32) -> Vec<u8> {
    png_bytes(DynamicImage::ImageRgba8(ImageBuffer::from_fn(width, height, |x, y| {
        Rgba([(x % 255) as u8, (y % 255) as u8, 100, 180])
    })))
}

fn file(path: &str, size: u64) -> Discovered {
    Discovered::File {
        path: path.to_owned(),
        size: Ok(size),
    }
}

fn nothing_on_disk(_path: String) -> bool {
    false
}

fn joined(dir: &str, name: &str) -> String {
    Path::new(dir).join(name).to_string_lossy().into_owned()
}

#[test]
fn rgb_color_requires_exact_hex_form() {
    assert_eq!(
        RgbColor::parse("#12aBcF").unwrap(),
        RgbColor::new(0x12, 0xab, 0xcf)
    );
    assert!(RgbColor::parse("12ABCF").is_err());
    assert!(RgbColor::parse("#FFF").is_err());
}

#[test]
fn rgb_color_refuses_signed_digit_pairs() {
    assert_eq!(
        RgbColor::parse("#+1+2+3").unwrap_err(),
        "color must use hexadecimal #RRGGBB"
    );
    assert!(RgbColor::parse("#+F0000").is_err());
    assert!(RgbColor::parse("#00-100").is_err());
}

#[test]
fn rgb_color_text_round_trips_and_names_each_refusal() {
    let c = RgbColor::new(0x0a, 0xbc, 0xff);
    assert_eq!(c.to_hex_string(), "#0ABCFF");
    assert_eq!(RgbColor::parse(&c.to_hex_string()).unwrap(), c);
    assert_eq!(RgbColor::parse("#12345").unwrap_err(), "color must use #RRGGBB");
    assert_eq!(
        RgbColor::parse("#12345Z").unwrap_err(),
        "color must use hexadecimal #RRGGBB"
    );
    assert_eq!(c.components(), [0x0a, 0xbc, 0xff]);
    assert_eq!(RgbColor::default(), RgbColor::white());
}

#[test]
fn jpeg_matte_composites_transparent_partial_opaque_and_rgb_pixels() {
    let custom = RgbColor::new(20, 40, 60);
    let rgba = Picture {
        width: 3,
        height: 1,
        rgba: vec![255, 0, 0, 0, 200, 100, 0, 128, 9, 8, 7, 255],
        wide: None,
    };
    let (width, height, pixels) = composite_for_jpeg(&rgba, custom);
    assert_eq!((width, height), (3, 1));
    assert_eq!(&pixels[0..3], &[20, 40, 60]);
    assert_eq!(&pixels[3..6], &[110, 70, 30]);
    assert_eq!(&pixels[6..9], &[9, 8, 7]);
    let rgb = decode(&png_bytes(DynamicImage::ImageRgb8(ImageBuffer::from_pixel(
        1,
        1,
        image::Rgb([1, 2, 3]),
    ))), "rgb.png")
    .unwrap();
    assert_eq!(composite_for_jpeg(&rgb, RgbColor::black()).2, vec![1, 2, 3]);
    assert_eq!(
        &composite_for_jpeg(&rgba, RgbColor::white()).2[0..3],
        &[255, 255, 255]
    );
    assert_eq!(
        &composite_for_jpeg(&rgba, RgbColor::black()).2[0..3],
        &[0, 0, 0]
    );
}

#[test]
fn converts_and_fits_an_image() {
    let picture = prepare(
        decode(&sample(400, 200), "source.png"),
        ResizeMode::Fit { width: 100, height: 100 },
    )
    .unwrap();
    assert_eq!((picture.width, picture.height), (100, 50));
    assert_eq!(picture.rgba.len(), 4 * 100 * 50);
    let bytes = encode(&picture, OutputFormat::Jpeg, 90, RgbColor::white()).unwrap();
    let result = image::load_from_memory(&bytes).unwrap();
    assert_eq!(result.dimensions(), (100, 50));
}

#[test]
fn png_and_webp_preserve_alpha() {
    let source = png_bytes(DynamicImage::ImageRgba8(ImageBuffer::from_pixel(
        1,
        1,
        Rgba([10_u8, 20, 30, 77]),
    )));
    for format in [OutputFormat::Png, OutputFormat::WebP] {
        let picture = prepare(decode(&source, "source.png"), ResizeMode::Original).unwrap();
        let bytes = encode(&picture, format, 90, RgbColor::white()).unwrap();
        let converted = image::load_from_memory(&bytes).unwrap().to_rgba8();
        assert_eq!(converted.get_pixel(0, 0).0[3], 77);
    }
}

#[test]
fn resizing_keeps_an_unchanged_size_and_resamples_otherwise() {
    let picture = Picture {
        width: 2,
        height: 1,
        rgba: vec![10, 20, 30, 255, 50, 60, 70, 255],
        wide: None,
    };
    let same = resize(picture, ResizeMode::Percent(100)).unwrap();
    assert_eq!(same.rgba, vec![10, 20, 30, 255, 50, 60, 70, 255]);
    let tall = resize(same, ResizeMode::Exact { width: 1, height: 3 }).unwrap();
    assert_eq!((tall.width, tall.height, tall.rgba.len()), (1, 3, 12));
    assert!(tall.wide.is_none());
}

#[test]
fn deep_pictures_are_resampled_at_sixteen_bits_and_then_narrowed() {
    let picture = Picture {
        width: 2,
        height: 1,
        rgba: vec![0; 8],
        wide: Some(vec![0x8080; 8]),
    };
    let small = resize(picture, ResizeMode::Exact { width: 1, height: 1 }).unwrap();
    assert_eq!(small.wide, Some(vec![0x8080; 4]));
    assert_eq!(small.rgba, vec![128; 4]);
}

#[test]
fn sixteen_bit_images_keep_their_deep_samples_when_decoded() {
    let deep = DynamicImage::ImageRgba16(ImageBuffer::from_pixel(
        2,
        2,
        image::Rgba([0xffff, 0x0101, 0x8080, 0xffff]),
    ));
    let picture = decode(&png_bytes(deep), "deep.png").ok().unwrap();
    assert_eq!(picture.wide.as_ref().map(|s| s.len()), Some(16));
    assert_eq!(&picture.rgba[0..4], &[255, 1, 128, 255]);
    let shallow = decode(
        &png_bytes(DynamicImage::ImageRgb8(ImageBuffer::from_pixel(1, 1, image::Rgb([1, 2, 3])))),
        "shallow.png",
    )
    .ok()
    .unwrap();
    assert!(shallow.wide.is_none());
}

#[test]
fn encoders_refuse_empty_pictures() {
    for format in [OutputFormat::Png, OutputFormat::Jpeg, OutputFormat::WebP] {
        assert!(matches!(
            encode_pixels(format, 0, 0, &[], 90, RgbColor::white()),
            Err(ConvertError::Decode(_))
        ));
    }
}

#[test]
fn refused_resizes_and_undecodable_bytes_fail() {
    let source = sample(4, 4);
    assert!(matches!(
        prepare(decode(&source, "source.png"), ResizeMode::Fit { width: 0, height: 0 }),
        Err(ConvertError::InvalidResize)
    ));
    assert!(matches!(
        prepare(decode(&source, "source.png"), ResizeMode::Percent(0)),
        Err(ConvertError::InvalidResize)
    ));
    let error = prepare(decode(b"not an image", "notes.txt"), ResizeMode::Original)
        .err()
        .unwrap();
    assert!(matches!(error, ConvertError::Decode(_)));
    assert!(error.message().starts_with("could not decode image: "));
    assert_eq!(
        ConvertError::InvalidResize.message(),
        "invalid resize dimensions"
    );
}

#[test]
fn resize_dimensions_for_each_mode() {
    assert_eq!(resize_dimensions(400, 200, ResizeMode::Original), Ok((400, 200)));
    assert_eq!(
        resize_dimensions(400, 200, ResizeMode::Fit { width: 100, height: 100 }),
        Ok((100, 50))
    );
    assert_eq!(
        resize_dimensions(400, 200, ResizeMode::Fit { width: 0, height: 50 }),
        Ok((100, 50))
    );
    assert_eq!(
        resize_dimensions(3, 1, ResizeMode::Fit { width: 2, height: 0 }),
        Ok((2, 1))
    );
    assert_eq!(
        resize_dimensions(400, 200, ResizeMode::Percent(1)),
        Ok((4, 2))
    );
    assert_eq!(
        resize_dimensions(10, 10, ResizeMode::Percent(1)),
        Ok((1, 1))
    );
    assert_eq!(
        resize_dimensions(10, 10, ResizeMode::Exact { width: 0, height: 5 }),
        Err(ResizeError::InvalidResize)
    );
}

#[test]
fn supported_inputs_are_recognised_by_extension_in_any_case() {
    assert!(is_supported_input("a/b.PNG"));
    assert!(is_supported_input("photo.jpeg"));
    assert!(is_supported_input("scan.TiF"));
    assert!(!is_supported_input("notes.txt"));
    assert!(!is_supported_input("noext"));
}

#[test]
fn planning_keeps_each_file_once_and_records_sizes() {
    let source = format!("{ROOT}/nested/source.png");
    let entries = vec![
        file(&source, 1234),
        file(&format!("{ROOT}/nested/readme.txt"), 5),
        file(&source, 1234),
        Discovered::Failure(PlanningFailure {
            path: format!("{ROOT}/missing"),
            error: "input is unavailable: gone".to_owned(),
        }),
        Discovered::File {
            path: format!("{ROOT}/nested/locked.png"),
            size: Err("denied".to_owned()),
        },
    ];
    let (inputs, failures) = collect_inputs(&entries);
    assert_eq!(inputs, vec![(source.clone(), 1234)]);
    assert_eq!(failures.len(), 2);
    assert_eq!(failures[1].error, "could not read file metadata: denied");
    let plan = Converter
        .plan(ConversionRequest::default(), &entries, nothing_on_disk)
        .ok()
        .unwrap();
    assert_eq!(plan.items.len(), 1);
    assert_eq!(plan.items[0].byte_size, 1234);
    assert_eq!(plan.items[0].input, source);
    assert_eq!(plan.request.inputs, vec![source]);
    assert_eq!(
        plan.items[0].output,
        joined(&format!("{ROOT}/nested/converted"), "source.png")
    );
    assert_eq!(plan.failures.len(), 2);
}

#[test]
fn planning_without_images_fails() {
    let error = Converter
        .plan(ConversionRequest::default(), &[file("notes.txt", 3)], nothing_on_disk)
        .err()
        .unwrap();
    assert_eq!(error.message, "no supported images were found");
}

#[test]
fn every_collision_style_and_duplicate_stem_is_reserved() {
    let first = format!("{ROOT}/a/same.png");
    let second = format!("{ROOT}/b/same.png");
    for (style, expected) in [
        (DuplicateStyle::Dash, "same-2.png"),
        (DuplicateStyle::Underscore, "same_2.png"),
        (DuplicateStyle::Parenthesized, "same (2).png"),
        (DuplicateStyle::Copy, "same-copy.png"),
    ] {
        let output = format!("{ROOT}/{}", style.to_string());
        let plan = Converter
            .plan(
                ConversionRequest {
                    output_dir: Some(output.clone()),
                    duplicate_style: style,
                    ..Default::default()
                },
                &[file(&first, 1), file(&second, 1)],
                nothing_on_disk,
            )
            .ok()
            .unwrap();
        assert_eq!(plan.items[0].output, joined(&output, "same.png"));
        assert_eq!(plan.items[1].output, joined(&output, expected));
    }
}

#[test]
fn an_output_that_would_overwrite_its_input_gets_a_converted_suffix() {
    let input = format!("{ROOT}/pics/photo.png");
    let plan = Converter
        .plan(
            ConversionRequest {
                output_dir: Some(format!("{ROOT}/pics")),
                ..Default::default()
            },
            &[file(&input, 1)],
            nothing_on_disk,
        )
        .ok()
        .unwrap();
    assert_eq!(
        plan.items[0].output,
        joined(&format!("{ROOT}/pics"), "photo-converted.png")
    );
}

#[test]
fn duplicate_names_follow_each_style() {
    assert_eq!(DuplicateStyle::Dash.name("x", 3), "x-3");
    assert_eq!(DuplicateStyle::Underscore.name("x", 12), "x_12");
    assert_eq!(DuplicateStyle::Parenthesized.name("x", 2), "x (2)");
    assert_eq!(DuplicateStyle::Copy.name("x", 2), "x-copy");
    assert_eq!(DuplicateStyle::Copy.name("x", 3), "x-copy-2");
    for style in [
        DuplicateStyle::Dash,
        DuplicateStyle::Underscore,
        DuplicateStyle::Parenthesized,
        DuplicateStyle::Copy,
    ] {
        assert_eq!(DuplicateStyle::parse(&style.to_string()).unwrap(), style);
    }
    assert_eq!(DuplicateStyle::parse("DASH").unwrap(), DuplicateStyle::Dash);
    assert_eq!(OutputFormat::Jpeg.extension(), "jpg");
    assert_eq!(OutputFormat::WebP.extension(), "webp");
}

#[test]
fn names_found_on_disk_are_skipped_unless_overwriting() {
    let input = format!("{ROOT}/pics/photo.png");
    let out = format!("{ROOT}/out");
    let taken = joined(&out, "photo.jpg");
    let taken_too = joined(&out, "photo-2.jpg");
    let on_disk = |path: String| path == taken || path == taken_too;
    let plan = Converter
        .plan(
            ConversionRequest {
                output_dir: Some(out.clone()),
                format: OutputFormat::Jpeg,
                ..Default::default()
            },
            &[file(&input, 1)],
            on_disk,
        )
        .ok()
        .unwrap();
    assert_eq!(plan.items[0].output, joined(&out, "photo-3.jpg"));
    let plan = Converter
        .plan(
            ConversionRequest {
                output_dir: Some(out.clone()),
                format: OutputFormat::Jpeg,
                overwrite: true,
                ..Default::default()
            },
            &[file(&input, 1)],
            |_path: String| true,
        )
        .ok()
        .unwrap();
    assert_eq!(plan.items[0].output, joined(&out, "photo.jpg"));
}

#[test]
fn unrecognised_content_is_decoded_in_the_format_its_name_gives() {
    let by_content = decode(b"not an image", "notes.txt").err().unwrap().message();
    let by_name = decode(b"not an image", "photo.png").err().unwrap().message();
    assert!(by_content.starts_with("could not decode image: "));
    assert!(by_name.starts_with("could not decode image: "));
    assert_ne!(by_content, by_name);
    let png = sample(3, 2);
    let picture = decode(&png, "mislabelled.jpg").unwrap();
    assert_eq!((picture.width, picture.height), (3, 2));
}
