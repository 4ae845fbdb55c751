use codex_usage_win::appearance::{
    format_local_system_time, format_precise_reset_time, taskbar_line, taskbar_value_text,
    AppearancePreset, LocalTime, UsageWindowKind,
};
use codex_usage_win::language::LanguageId;

fn reset_at() -> LocalTime {
    LocalTime { year: 2026, month: 9, day: 9, hour: 22, minute: 13 }
}

#[test]
fn compact_is_the_default_preset() {
    assert_eq!(AppearancePreset::default(), AppearancePreset::Compact);
}

#[test]
fn legacy_default_setting_migrates_to_compact() {
    let preset = AppearancePreset::from_setting_name("default").unwrap();
    assert_eq!(preset, AppearancePreset::Compact);
    assert_eq!(preset.setting_name(), "compact");
}

#[test]
fn minimal_has_the_smallest_layout() {
    let compact = AppearancePreset::Compact.metrics();
    let minimal = AppearancePreset::Minimal.metrics();

    assert!(minimal.bar_width < compact.bar_width);
    assert_eq!(minimal.bar_value_width, compact.bar_value_width);
    assert_eq!(minimal.bar_value_gap, compact.bar_value_gap);
    assert_eq!(minimal.text_width, 0);
    assert!(minimal.hide_reset_time);
    assert!(!compact.hide_reset_time);
}

#[test]
fn percentage_value_slot_has_room_for_three_digits() {
    let compact = AppearancePreset::Compact.metrics();
    let minimal = AppearancePreset::Minimal.metrics();

    assert!(compact.bar_value_width >= 34);
    assert!(minimal.bar_value_width >= 34);
}

#[test]
fn percentage_value_gap_is_subtle_but_visible() {
    let compact = AppearancePreset::Compact.metrics();
    let minimal = AppearancePreset::Minimal.metrics();

    assert_eq!(compact.bar_value_gap, 2);
    assert_eq!(minimal.bar_value_gap, 2);
}

#[test]
fn taskbar_text_separates_percentage_from_reset_hint() {
    let remaining = 19;
    let compact = taskbar_value_text(
        AppearancePreset::Compact,
        LanguageId::SimplifiedChinese,
        remaining,
        Some(reset_at()),
        UsageWindowKind::Session,
    );
    assert_eq!(compact.primary, "19%");
    assert!(compact.secondary.is_some());

    let minimal = taskbar_value_text(
        AppearancePreset::Minimal,
        LanguageId::SimplifiedChinese,
        remaining,
        Some(reset_at()),
        UsageWindowKind::Session,
    );
    assert_eq!(minimal.primary, "19%");
    assert_eq!(minimal.secondary, None);
}

#[test]
fn remaining_quota_is_language_independent() {
    for language in [
        LanguageId::SimplifiedChinese,
        LanguageId::English,
        LanguageId::Japanese,
    ] {
        let value = taskbar_value_text(
            AppearancePreset::Compact,
            language,
            92,
            Some(reset_at()),
            UsageWindowKind::Session,
        );
        assert_eq!(value.primary, "92%");
    }
}

#[test]
fn taskbar_line_never_uses_reset_icon() {
    let compact = taskbar_line(
        AppearancePreset::Compact,
        LanguageId::SimplifiedChinese,
        19,
        Some(reset_at()),
        UsageWindowKind::Session,
    );
    let minimal = taskbar_line(
        AppearancePreset::Minimal,
        LanguageId::SimplifiedChinese,
        19,
        Some(reset_at()),
        UsageWindowKind::Session,
    );

    assert!(compact.starts_with("19%  "));
    assert!(!compact.contains('↻'));
    assert_eq!(minimal, "19%");
}

#[test]
fn reset_hints_are_zero_padded_per_window() {
    let t = LocalTime { year: 2026, month: 7, day: 3, hour: 9, minute: 5 };
    let session = taskbar_line(AppearancePreset::Compact, LanguageId::English, 7, Some(t), UsageWindowKind::Session);
    let weekly = taskbar_line(AppearancePreset::Compact, LanguageId::English, 100, Some(t), UsageWindowKind::Weekly);
    assert_eq!(session, "7%  09:05");
    assert_eq!(weekly, "100%  07/03");
    let unknown = taskbar_line(AppearancePreset::Compact, LanguageId::English, 0, None, UsageWindowKind::Weekly);
    assert_eq!(unknown, "0%");
}

#[test]
fn formats_precise_local_reset_time() {
    let local = LocalTime { year: 2026, month: 7, day: 17, hour: 18, minute: 30 };
    assert_eq!(format_local_system_time(local), "2026-07-17 18:30");
    assert_eq!(format_precise_reset_time(None), None);
}

#[test]
fn unknown_layout_names_are_rejected() {
    assert_eq!(AppearancePreset::from_setting_name("minimal"), Some(AppearancePreset::Minimal));
    assert_eq!(AppearancePreset::from_setting_name("compact"), Some(AppearancePreset::Compact));
    assert_eq!(AppearancePreset::from_setting_name("Minimal"), None);
    assert_eq!(AppearancePreset::Minimal.setting_name(), "minimal");
}
