use image_converter::cli::CliOptions;
use image_converter::color::RgbColor;
use image_converter::options::{DuplicateStyle, OutputFormat, ResizeMode};

fn options(format: OutputFormat, background: Option<RgbColor>) -> CliOptions {
    CliOptions {
        inputs: vec!["input.png".to_owned()],
        format,
        output: None,
        width: None,
        height: None,
        exact: false,
        percent: None,
        quality: 90,
        background,
        duplicate_style: DuplicateStyle::Dash,
        overwrite: false,
    }
}

#[test]
fn accepts_jpeg_background_and_duplicate_style() {
    let mut cli = options(OutputFormat::Jpeg, Some(RgbColor::parse("#102030").unwrap()));
    cli.duplicate_style = DuplicateStyle::parse("copy").unwrap();
    let request = cli.into_request().unwrap();
    assert_eq!(request.jpeg_background, RgbColor::new(0x10, 0x20, 0x30));
    assert_eq!(request.duplicate_style, DuplicateStyle::Copy);
}

#[test]
fn rejects_background_for_non_jpeg_output() {
    let cli = options(OutputFormat::Png, Some(RgbColor::parse("#FFFFFF").unwrap()));
    assert!(cli.into_request().err().unwrap().contains("only meaningful"));
}

#[test]
fn rejects_invalid_background_and_naming_style() {
    assert!(RgbColor::parse("white").is_err());
    assert!(DuplicateStyle::parse("numbers").is_err());
}

#[test]
fn resize_options_pick_percent_exact_fit_or_original() {
    let mut cli = options(OutputFormat::Png, None);
    cli.percent = Some(50);
    assert_eq!(cli.into_request().unwrap().resize, ResizeMode::Percent(50));
    let mut cli = options(OutputFormat::Png, None);
    cli.exact = true;
    cli.width = Some(30);
    cli.height = Some(20);
    assert_eq!(
        cli.into_request().unwrap().resize,
        ResizeMode::Exact { width: 30, height: 20 }
    );
    let mut cli = options(OutputFormat::Png, None);
    cli.height = Some(20);
    assert_eq!(
        cli.into_request().unwrap().resize,
        ResizeMode::Fit { width: 0, height: 20 }
    );
    let cli = options(OutputFormat::WebP, None);
    let request = cli.into_request().unwrap();
    assert_eq!(request.resize, ResizeMode::Original);
    assert_eq!(request.jpeg_background, RgbColor::white());
    assert_eq!(request.inputs, vec!["input.png".to_owned()]);
    assert_eq!(request.jpeg_quality, 90);
}
