use image_converter::theme::{HexColor, ThemeTokens};
use image_converter::theme_catalog::{
    BuiltInTheme, DirtyDecision, LegacySettings, LegacyThemeMode, PersistedSettings, Preferences,
    SavedThemeId, ThemeCatalog, ThemeId, WindowMaterial, SETTINGS_SCHEMA_VERSION,
};

fn save_named(catalog: &mut ThemeCatalog, name: &str) -> ThemeId {
    assert!(catalog.begin_new_theme());
    catalog.set_draft_name(name.to_owned());
    catalog.save_draft().unwrap()
}

fn tokens(n: u8) -> ThemeTokens {
    let mut t = ThemeTokens::dark();
    let mut v = n;
    for slot in [
        &mut t.canvas,
        &mut t.background,
        &mut t.panel,
        &mut t.control,
        &mut t.field,
        &mut t.row_alt,
        &mut t.border,
        &mut t.text,
        &mut t.muted,
        &mut t.accent,
        &mut t.on_accent,
        &mut t.danger,
        &mut t.title,
        &mut t.title_text,
        &mut t.title_muted,
        &mut t.title_rule,
        &mut t.title_control,
    ] {
        *slot = HexColor::from_channels(&[v, v, v]).unwrap();
        v += 1;
    }
    t
}

#[test]
fn creates_multiple_themes_with_unique_stable_ids_and_rename_preserves_id() {
    let mut catalog = ThemeCatalog::default();
    let first = save_named(&mut catalog, "First");
    let second = save_named(&mut catalog, "Second");
    assert_ne!(first, second);
    let ThemeId::Saved(second_id) = second else {
        panic!()
    };
    assert_eq!(catalog.rename_selected("Renamed").unwrap(), second_id);
    assert_eq!(catalog.selected(), ThemeId::Saved(second_id));
    assert_eq!(catalog.selected_label(), "Renamed");
}

#[test]
fn rejects_blank_invalid_and_duplicate_names() {
    let mut catalog = ThemeCatalog::default();
    assert!(catalog.begin_new_theme());
    assert!(catalog.save_draft().is_err());
    catalog.set_draft_name("bad\nname".to_owned());
    assert!(catalog.save_draft().is_err());
    catalog.set_draft_name("Good".to_owned());
    catalog.save_draft().unwrap();
    assert!(catalog.begin_new_theme());
    catalog.set_draft_name(" good ".to_owned());
    assert!(catalog.save_draft().is_err());
}

#[test]
fn selects_builtins_and_saved_and_restores_each_material() {
    let mut catalog = ThemeCatalog::default();
    catalog
        .request_selection(ThemeId::BuiltIn(BuiltInTheme::Glass))
        .unwrap();
    let glass = save_named(&mut catalog, "Glass custom");
    catalog.set_glass_values(31, 44, true);
    catalog.save_draft().unwrap();
    catalog
        .request_selection(ThemeId::BuiltIn(BuiltInTheme::Light))
        .unwrap();
    let solid = save_named(&mut catalog, "Solid custom");
    catalog.set_solid();
    catalog.save_draft().unwrap();
    catalog.request_selection(glass).unwrap();
    assert_eq!(
        catalog.resolved_appearance().material,
        WindowMaterial::Glass {
            blur: 31,
            translucency: 44,
            solid_when_inactive: true
        }
    );
    catalog.request_selection(solid).unwrap();
    assert_eq!(
        catalog.resolved_appearance().material,
        WindowMaterial::Solid
    );
}

#[test]
fn updates_and_deletes_active_theme_with_dark_fallback() {
    let mut catalog = ThemeCatalog::default();
    let saved = save_named(&mut catalog, "Editable");
    let mut tokens = catalog.resolved_appearance().tokens.clone();
    tokens.accent = HexColor([1, 2, 3, 96]);
    catalog.set_draft_tokens(tokens.clone());
    assert_eq!(catalog.save_draft().unwrap(), saved);
    assert_eq!(catalog.resolved_appearance().tokens, tokens);
    catalog.delete_selected().unwrap();
    assert_eq!(catalog.selected(), ThemeId::BuiltIn(BuiltInTheme::Dark));
    assert_eq!(catalog.resolved_appearance().tokens, ThemeTokens::dark());
}

#[test]
fn dirty_navigation_supports_save_discard_and_cancel() {
    let mut catalog = ThemeCatalog::default();
    catalog.set_draft_name("Derived".to_owned());
    assert!(
        !catalog
            .request_selection(ThemeId::BuiltIn(BuiltInTheme::Light))
            .unwrap()
    );
    assert!(!catalog.resolve_pending(DirtyDecision::Cancel).unwrap());
    assert_eq!(catalog.selected(), ThemeId::BuiltIn(BuiltInTheme::Dark));
    assert!(
        !catalog
            .request_selection(ThemeId::BuiltIn(BuiltInTheme::Light))
            .unwrap()
    );
    assert!(catalog.resolve_pending(DirtyDecision::Save).unwrap());
    assert_eq!(catalog.saved_themes().len(), 1);
    assert_eq!(catalog.selected(), ThemeId::BuiltIn(BuiltInTheme::Light));
    catalog.set_draft_name("Throw away".to_owned());
    assert!(
        !catalog
            .request_selection(ThemeId::BuiltIn(BuiltInTheme::Glass))
            .unwrap()
    );
    assert!(catalog.resolve_pending(DirtyDecision::Discard).unwrap());
    assert_eq!(catalog.selected(), ThemeId::BuiltIn(BuiltInTheme::Glass));
    assert_eq!(catalog.saved_themes().len(), 1);
}

#[test]
fn persisted_settings_restore_multiple_themes_and_selection() {
    let mut preferences = Preferences::default();
    save_named(&mut preferences.themes, "One");
    let selected = save_named(&mut preferences.themes, "Two");
    preferences.themes.set_glass();
    preferences.themes.set_glass_values(12, 34, true);
    let mut tokens = preferences.themes.resolved_appearance().tokens.clone();
    tokens.panel = HexColor([37, 45, 53, 96]);
    preferences.themes.set_draft_tokens(tokens);
    preferences.themes.save_draft().unwrap();
    let persisted = preferences.to_persisted();
    assert_eq!(persisted.schema_version, SETTINGS_SCHEMA_VERSION);
    let loaded = Preferences::from_persisted(persisted).unwrap();
    assert_eq!(loaded.themes.selected(), selected);
    assert_eq!(loaded.themes.saved_themes().len(), 2);
    assert_eq!(
        loaded.themes.resolved_appearance(),
        preferences.themes.resolved_appearance()
    );
    assert_eq!(loaded.jpeg_background, preferences.jpeg_background);
}

#[test]
fn migrates_schema_two_rgb_colors_as_opaque() {
    let loaded = Preferences::from_persisted(PersistedSettings {
        schema_version: 2,
        selected_theme: ThemeId::BuiltIn(BuiltInTheme::Dark),
        saved_themes: Vec::new(),
        next_saved_theme_id: 1,
        jpeg_background: HexColor::from_channels(&[12, 34, 56]).unwrap(),
    })
    .unwrap();
    assert_eq!(
        loaded.themes.selected(),
        ThemeId::BuiltIn(BuiltInTheme::Dark)
    );
    assert_eq!(loaded.jpeg_background, HexColor([12, 34, 56, 255]));
}

#[test]
fn unknown_schema_versions_are_refused() {
    for version in [0, 1, 4, 999] {
        let refused = Preferences::from_persisted(PersistedSettings {
            schema_version: version,
            selected_theme: ThemeId::BuiltIn(BuiltInTheme::Light),
            saved_themes: Vec::new(),
            next_saved_theme_id: 1,
            jpeg_background: HexColor([0, 0, 0, 255]),
        });
        assert!(refused.is_none());
    }
    let fallback = Preferences::default();
    assert_eq!(fallback.themes.selected(), ThemeId::BuiltIn(BuiltInTheme::Dark));
    assert_eq!(fallback.jpeg_background, HexColor([255, 255, 255, 255]));
}

#[test]
fn migrates_legacy_builtins() {
    for (mode, expected) in [
        (LegacyThemeMode::Light, BuiltInTheme::Light),
        (LegacyThemeMode::Dark, BuiltInTheme::Dark),
        (LegacyThemeMode::Glass, BuiltInTheme::Glass),
    ] {
        let loaded = Preferences::migrate_legacy(LegacySettings {
            active_theme: mode,
            ..LegacySettings::default()
        });
        assert_eq!(loaded.themes.selected(), ThemeId::BuiltIn(expected));
        assert!(loaded.themes.saved_themes().is_empty());
    }
}

#[test]
fn migrates_legacy_custom_and_custom_glass() {
    let custom = Preferences::migrate_legacy(LegacySettings {
        active_theme: LegacyThemeMode::Custom,
        custom_tokens: tokens(1),
        ..LegacySettings::default()
    });
    assert_eq!(custom.themes.selected_label(), "My theme");
    assert_eq!(custom.themes.selected(), ThemeId::Saved(SavedThemeId(1)));
    assert_eq!(
        custom.themes.resolved_appearance().tokens.accent,
        HexColor([10, 10, 10, 255])
    );
    assert_eq!(
        custom.themes.resolved_appearance().material,
        WindowMaterial::Solid
    );

    let glass = Preferences::migrate_legacy(LegacySettings {
        active_theme: LegacyThemeMode::CustomGlass,
        glass_blur: 27,
        glass_translucency: 61,
        solid_when_inactive: true,
        ..LegacySettings::default()
    });
    assert_eq!(glass.themes.selected_label(), "My glass");
    assert_eq!(
        glass.themes.resolved_appearance().material,
        WindowMaterial::Glass {
            blur: 27,
            translucency: 61,
            solid_when_inactive: true
        }
    );
}

#[test]
fn migrates_transitional_saved_custom_without_changing_builtin_selection() {
    let loaded = Preferences::migrate_legacy(LegacySettings {
        active_theme: LegacyThemeMode::Light,
        custom_theme_saved: true,
        custom_theme_uses_glass: true,
        glass_blur: 22,
        glass_translucency: 48,
        ..LegacySettings::default()
    });
    assert_eq!(
        loaded.themes.selected(),
        ThemeId::BuiltIn(BuiltInTheme::Light)
    );
    assert_eq!(loaded.themes.saved_themes().len(), 1);
    assert_eq!(loaded.themes.saved_themes()[0].name, "My glass");
    assert_eq!(
        loaded.themes.saved_themes()[0].appearance.material,
        WindowMaterial::Glass {
            blur: 22,
            translucency: 48,
            solid_when_inactive: false
        }
    );
}

#[test]
fn legacy_glass_values_are_capped() {
    let loaded = Preferences::migrate_legacy(LegacySettings {
        active_theme: LegacyThemeMode::CustomGlass,
        glass_blur: 200,
        glass_translucency: 95,
        ..LegacySettings::default()
    });
    assert_eq!(
        loaded.themes.resolved_appearance().material,
        WindowMaterial::Glass {
            blur: 64,
            translucency: 90,
            solid_when_inactive: false
        }
    );
    let again = save_and_next(loaded.themes);
    assert_eq!(again, ThemeId::Saved(SavedThemeId(2)));
}

fn save_and_next(mut catalog: ThemeCatalog) -> ThemeId {
    catalog.request_selection(ThemeId::BuiltIn(BuiltInTheme::Dark)).unwrap();
    save_named(&mut catalog, "Another")
}

#[test]
fn restored_catalog_raises_next_identity_and_falls_back_for_missing_selection() {
    let mut catalog = ThemeCatalog::default();
    save_named(&mut catalog, "Seven");
    let saved = catalog.saved_themes().to_vec();
    let restored = ThemeCatalog::from_persisted(ThemeId::Saved(SavedThemeId(99)), saved, 0);
    assert_eq!(restored.selected(), ThemeId::BuiltIn(BuiltInTheme::Dark));
    assert!(!restored.is_dirty());
    let mut restored = restored;
    let next = save_named(&mut restored, "Eight");
    assert_eq!(next, ThemeId::Saved(SavedThemeId(2)));
}

#[test]
fn renaming_and_deleting_are_refused_for_builtins_and_dirty_drafts() {
    let mut catalog = ThemeCatalog::default();
    assert_eq!(
        catalog.rename_selected("Name").unwrap_err(),
        "Built-in themes cannot be renamed"
    );
    assert_eq!(
        catalog.delete_selected().unwrap_err(),
        "Built-in themes cannot be deleted"
    );
    save_named(&mut catalog, "Mine");
    catalog.set_draft_name("Changed".to_owned());
    assert_eq!(
        catalog.rename_selected("Other").unwrap_err(),
        "Save or discard changes before renaming"
    );
    assert_eq!(
        catalog.delete_selected().unwrap_err(),
        "Save or discard changes before deleting"
    );
    catalog.discard_draft();
    assert_eq!(catalog.draft_name(), "Mine");
    assert_eq!(
        catalog.rename_selected("  ").unwrap_err(),
        "Enter a theme name"
    );
}

#[test]
fn choices_list_builtins_then_saved_themes() {
    let mut catalog = ThemeCatalog::default();
    save_named(&mut catalog, "Alpha");
    let choices = catalog.choices();
    let labels: Vec<&str> = choices.iter().map(|c| c.label.as_str()).collect();
    assert_eq!(labels, vec!["Light", "Dark", "Glass", "Alpha"]);
    assert!(choices[0].built_in && !choices[3].built_in);
    assert_eq!(catalog.editing_saved(), Some(SavedThemeId(1)));
    assert!(catalog.begin_new_theme());
    assert!(catalog.is_creating());
    assert!(!catalog.begin_new_theme());
    assert_eq!(catalog.pending_selection(), None);
}

#[test]
fn names_longer_than_sixty_four_characters_are_refused() {
    let mut catalog = ThemeCatalog::default();
    assert!(catalog.begin_new_theme());
    catalog.set_draft_name("x".repeat(65));
    assert_eq!(
        catalog.save_draft().unwrap_err(),
        "Theme names must be 1\u{2013}64 printable characters"
    );
    catalog.set_draft_name("x".repeat(64));
    assert!(catalog.save_draft().is_ok());
}

#[test]
fn discarding_edits_restores_the_catalog() {
    let mut catalog = ThemeCatalog::default();
    save_named(&mut catalog, "Kept");
    let before = catalog.clone();
    assert!(catalog.begin_new_theme());
    catalog.set_draft_name("x".into());
    catalog.set_glass_values(1, 2, true);
    assert!(catalog.is_dirty() && catalog.is_creating());
    assert_eq!(catalog.editing_saved(), None);
    catalog.discard_draft();
    assert_eq!(catalog, before);
    assert!(!catalog.is_dirty() && !catalog.is_creating());
    assert_eq!(catalog.editing_saved(), Some(SavedThemeId(1)));
}

#[test]
fn a_clean_catalog_survives_storing_unchanged() {
    let mut preferences = Preferences::default();
    save_named(&mut preferences.themes, "One");
    save_named(&mut preferences.themes, "Two");
    let loaded = Preferences::from_persisted(preferences.to_persisted()).unwrap();
    assert_eq!(loaded, preferences);
}
