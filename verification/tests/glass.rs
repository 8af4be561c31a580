use image_converter::glass::{
    corner_radius, normalized_translucency, platform_error_at, tint_opacity, GlassError,
    InactiveBehavior, MinimizeRegistration, MinimizeRegistry,
};

#[test]
fn inactive_solid_is_opt_in() {
    let translucency = 72;
    assert_eq!(
        tint_opacity(translucency, InactiveBehavior::KeepGlass, false),
        tint_opacity(translucency, InactiveBehavior::KeepGlass, true)
    );
    assert_eq!(tint_opacity(translucency, InactiveBehavior::Solid, false), u8::MAX);
}

#[test]
fn tint_opacity_follows_translucency() {
    assert_eq!(tint_opacity(72, InactiveBehavior::KeepGlass, true), 71);
    assert_eq!(tint_opacity(0, InactiveBehavior::Solid, true), 255);
    assert_eq!(tint_opacity(100, InactiveBehavior::KeepGlass, true), 0);
    assert_eq!(tint_opacity(250, InactiveBehavior::KeepGlass, true), 0);
}

#[test]
fn translucency_is_capped_at_one_hundred() {
    assert_eq!(normalized_translucency(250), 100);
    assert_eq!(normalized_translucency(100), 100);
    assert_eq!(normalized_translucency(42), 42);
}

#[test]
fn corner_radius_scales_with_dpi() {
    assert_eq!(corner_radius(96), 8);
    assert_eq!(corner_radius(72), 8);
    assert_eq!(corner_radius(144), 12);
    assert_eq!(corner_radius(120), 10);
}

#[test]
fn minimize_registry_finds_and_forgets_companions() {
    let mut registry = MinimizeRegistry::new();
    let a = MinimizeRegistration { host: 1, backdrop: 10 };
    let b = MinimizeRegistration { host: 2, backdrop: 20 };
    let c = MinimizeRegistration { host: 1, backdrop: 11 };
    registry.register(a);
    registry.register(b);
    registry.register(c);
    assert_eq!(registry.backdrop_for(1), Some(10));
    assert_eq!(registry.backdrop_for(2), Some(20));
    assert_eq!(registry.backdrop_for(3), None);
    registry.remove(a);
    assert_eq!(registry.backdrop_for(1), Some(11));
    registry.remove(MinimizeRegistration { host: 2, backdrop: 99 });
    assert_eq!(registry.backdrop_for(2), Some(20));
}

#[test]
fn glass_errors_have_their_text() {
    assert_eq!(
        GlassError::UnsupportedWindowHandle.message(),
        "the window is not a Win32 HWND"
    );
    assert_eq!(
        platform_error_at("CreateWindowExW", "access denied").message(),
        "CreateWindowExW: access denied"
    );
}

#[test]
fn tint_colour_carries_the_opacity_and_the_tint() {
    use_tint();
}

fn use_tint() {
    let tint = image_converter::color::RgbColor::new(25, 27, 31);
    assert_eq!(
        image_converter::glass::tint_color(tint, 72, InactiveBehavior::Solid, false),
        (255, 25, 27, 31)
    );
    assert_eq!(
        image_converter::glass::tint_color(tint, 72, InactiveBehavior::Solid, true),
        (71, 25, 27, 31)
    );
}
