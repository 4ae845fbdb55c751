use codex_usage_win::color::Color;
use codex_usage_win::style::{StyleColorTarget, StyleSettings, ThemePreset, ThemeStyle, FROSTED_STRENGTH_MAX};
use codex_usage_win::style_editor::parse_hex_input;

#[test]
fn defaults_keep_dark_and_light_separate() {
    let styles = StyleSettings::default_settings();
    assert_eq!(styles.dark.panel_background, "#242A31FF");
    assert_eq!(styles.light.panel_background, "#EEF1F4FF");
}

#[test]
fn presets_are_theme_specific_and_preserve_blur_when_applied() {
    let dark_ocean = ThemeStyle::preset(true, ThemePreset::Ocean);
    let light_ocean = ThemeStyle::preset(false, ThemePreset::Ocean);
    assert_ne!(dark_ocean.panel_background, light_ocean.panel_background);

    let mut style = ThemeStyle::dark_default();
    style.panel_frosted_strength = 37;
    style.apply_preset(true, ThemePreset::Forest);
    assert_eq!(style.panel_frosted_strength, 37);
    assert!(style.matches_preset(true, ThemePreset::Forest));

    style.remaining = "#FFFFFFFF".into();
    assert!(!style.matches_preset(true, ThemePreset::Forest));
}

#[test]
fn invalid_colors_and_strength_are_normalized() {
    let mut styles = StyleSettings::default_settings();
    styles.dark.panel_background = "bad".into();
    styles.dark.panel_frosted_strength = 180;
    styles.normalize();
    assert_eq!(styles.dark.panel_background, "#242A31FF");
    assert_eq!(styles.dark.panel_frosted_strength, FROSTED_STRENGTH_MAX);
}

#[test]
fn color_target_round_trips_rgba() {
    let mut style = ThemeStyle::dark_default();
    let color = Color::from_hex("#12345678");
    style.set_color(StyleColorTarget::ProgressHigh, color);
    assert_eq!(style.progress_high, "#12345678");
    assert_eq!(style.color(StyleColorTarget::ProgressHigh), color);
}

#[test]
fn hex_input_accepts_rgb_rgba_and_transient_partial_values() {
    assert_eq!(
        parse_hex_input("#123456"),
        Ok(Some(Color::from_hex("#123456FF")))
    );
    assert_eq!(
        parse_hex_input("89ABCDEF"),
        Ok(Some(Color::from_hex("#89ABCDEF")))
    );
    assert_eq!(parse_hex_input("#1234567"), Ok(None));
    assert_eq!(parse_hex_input("#12GG56"), Err(()));
}

#[test]
fn set_color_leaves_other_targets_alone() {
    let mut style = ThemeStyle::light_default();
    let before = style.panel_border.clone();
    style.set_color(StyleColorTarget::PanelBackground, Color::rgba(1, 2, 3, 4));
    assert_eq!(style.panel_background, "#01020304");
    assert_eq!(style.panel_border, before);
}

#[test]
fn legacy_blur_radius_migrates_to_full_strength_on_normalize() {
    let mut styles = StyleSettings::default_settings();
    styles.dark.panel_frosted_strength = 255;
    styles.dark.panel_blur_radius = 1;
    styles.light.panel_frosted_strength = 255;
    styles.light.panel_blur_radius = 0;
    styles.normalize();
    assert_eq!(styles.dark.panel_frosted_strength, 100);
    assert_eq!(styles.light.panel_frosted_strength, 0);
    assert_eq!(styles.dark.panel_blur_radius, 0);
}

#[test]
fn hex_text_reads_back_in_every_form() {
    let c = Color::rgba(0x0A, 0xB1, 0xFF, 0x40);
    let text = c.to_hex_rgba();
    assert_eq!(text, "#0AB1FF40");
    assert_eq!(Color::try_from_hex(&format!(" \t{}\n", text)), Some(c));
    assert_eq!(Color::try_from_hex(&text[1..]), Some(c));
    assert_eq!(Color::try_from_hex("#0AB1FF"), Some(Color::rgba(0x0A, 0xB1, 0xFF, 255)));
}
