use image_converter::color::RgbColor;
use image_converter::theme::{hex, token_strings, HexColor, Preferences, ThemeMode, ThemeTokens};

#[test]
fn parses_exact_hex_colors() {
    assert_eq!(HexColor::parse("#0f9D84").unwrap(), hex(0x0f, 0x9d, 0x84));
    assert!(HexColor::parse("0f9d84").is_err());
}

#[test]
fn hex_colors_refuse_signed_digit_pairs() {
    assert_eq!(
        HexColor::parse("#+1+2+3").unwrap_err(),
        "color must use hexadecimal #RRGGBB or #RRGGBBAA"
    );
    assert!(HexColor::parse("#102030+C").is_err());
}

#[test]
fn hex_colors_with_alpha_parse_and_print() {
    let c = HexColor::parse("#102030C0").unwrap();
    assert_eq!(c, HexColor([0x10, 0x20, 0x30, 0xc0]));
    assert_eq!(c.to_hex_string(), "#102030C0");
    assert_eq!(hex(1, 2, 3).to_hex_string(), "#010203");
    assert_eq!(
        HexColor::parse("#12345").unwrap_err(),
        "color must use #RRGGBB or #RRGGBBAA"
    );
    assert_eq!(
        HexColor::parse("#12345G").unwrap_err(),
        "color must use hexadecimal #RRGGBB or #RRGGBBAA"
    );
}

#[test]
fn hex_text_reads_back_as_the_same_token() {
    for c in [
        HexColor([0, 0, 0, 255]),
        HexColor([255, 254, 9, 0]),
        HexColor([0xab, 0xcd, 0xef, 0x12]),
    ] {
        assert_eq!(HexColor::parse(&c.to_hex_string()).unwrap(), c);
    }
}

#[test]
fn channel_lists_of_three_are_opaque_and_of_four_keep_alpha() {
    assert_eq!(
        HexColor::from_channels(&[12, 34, 56]),
        Some(HexColor([12, 34, 56, 255]))
    );
    assert_eq!(
        HexColor::from_channels(&[12, 34, 56, 7]),
        Some(HexColor([12, 34, 56, 7]))
    );
    assert_eq!(HexColor::from_channels(&[1, 2]), None);
    assert_eq!(HexColor::from_channels(&[1, 2, 3, 4, 5]), None);
}

#[test]
fn tokens_follow_the_active_theme() {
    let mut p = Preferences::default();
    assert_eq!(p.active_theme, ThemeMode::Dark);
    assert_eq!(p.tokens(), ThemeTokens::dark());
    p.active_theme = ThemeMode::Light;
    assert_eq!(p.tokens(), ThemeTokens::light());
    p.active_theme = ThemeMode::Glass;
    assert_eq!(p.tokens(), ThemeTokens::glass());
    p.active_theme = ThemeMode::Custom;
    p.custom_tokens.accent = hex(1, 2, 3);
    assert_eq!(p.tokens().accent, hex(1, 2, 3));
    assert_eq!(p.glass_translucency, 72);
    assert_eq!(p.glass_blur, 18);
}

#[test]
fn token_strings_list_every_token_in_order() {
    let mut t = ThemeTokens::dark();
    t.canvas = hex(0xaa, 0xbb, 0xcc);
    t.title_control = HexColor([1, 2, 3, 4]);
    let strings = token_strings(&t);
    assert_eq!(strings.len(), 17);
    assert_eq!(strings[0], "#AABBCC");
    assert_eq!(strings[16], "#01020304");
}

#[test]
fn rgb_and_token_conversions_keep_channels() {
    let token = HexColor::from(RgbColor::new(9, 8, 7));
    assert_eq!(token, HexColor([9, 8, 7, 255]));
    assert_eq!(RgbColor::from(HexColor([9, 8, 7, 1])), RgbColor::new(9, 8, 7));
}
