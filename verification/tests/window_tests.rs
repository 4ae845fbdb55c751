use codex_usage_win::appearance::AppearancePreset;
use codex_usage_win::alerts::{append_quota_alert, TrayIconKind, UsageSnapshot};
use codex_usage_win::language::LanguageId;
use codex_usage_win::settings_file::{normalize_settings, SettingsFile};
use codex_usage_win::widget::{
    compute_anchor_y, is_small_taskbar_height_at_dpi, poll_error_display_label, service_tooltip,
    should_write_migrated_startup, text_quality_for_layered_surface, PollError,
    CLEARTYPE_QUALITY_VALUE, NONANTIALIASED_QUALITY_VALUE,
};

#[test]
fn transparent_layered_text_avoids_cleartype_background_fringe() {
    // GDI's CLEARTYPE_QUALITY is 5 and NONANTIALIASED_QUALITY is 3.
    assert_eq!(CLEARTYPE_QUALITY_VALUE, 5);
    assert_eq!(NONANTIALIASED_QUALITY_VALUE, 3);
    assert_eq!(
        text_quality_for_layered_surface(255, false),
        CLEARTYPE_QUALITY_VALUE
    );
    assert_eq!(
        text_quality_for_layered_surface(254, false),
        NONANTIALIASED_QUALITY_VALUE
    );
    assert_eq!(
        text_quality_for_layered_surface(255, true),
        NONANTIALIASED_QUALITY_VALUE
    );
}

#[test]
fn centers_widget_vertically() {
    assert_eq!(compute_anchor_y(100, 48, 42), 103);
    assert_eq!(compute_anchor_y(100, 32, 28), 102);
    assert_eq!(compute_anchor_y(100, 24, 28), 100);
}

#[test]
fn small_taskbar_threshold_is_dpi_aware() {
    assert!(is_small_taskbar_height_at_dpi(32, 96));
    assert!(is_small_taskbar_height_at_dpi(34, 96));
    assert!(!is_small_taskbar_height_at_dpi(35, 96));
    assert!(is_small_taskbar_height_at_dpi(51, 144));
    assert!(!is_small_taskbar_height_at_dpi(52, 144));
}

#[test]
fn service_tooltip_combines_visible_quota_rows() {
    assert_eq!(
        service_tooltip(
            "Codex",
            "剩余13% 19:04重置",
            "剩余86% 07/18重置",
            true,
            true,
        ),
        "Codex: 5H 剩余13% 19:04重置 | 7D 剩余86% 07/18重置"
    );
}

#[test]
fn startup_migration_only_writes_when_legacy_exists_without_current_entry() {
    assert!(should_write_migrated_startup(true, false));
    assert!(!should_write_migrated_startup(false, false));
    assert!(!should_write_migrated_startup(true, true));
    assert!(!should_write_migrated_startup(false, true));
}

#[test]
fn displays_distinct_transient_error_categories() {
    assert_eq!(
        poll_error_display_label(PollError::NetworkUnavailable, LanguageId::SimplifiedChinese),
        "网络"
    );
    assert_eq!(
        poll_error_display_label(PollError::RateLimited, LanguageId::SimplifiedChinese),
        "限流"
    );
    assert_eq!(
        poll_error_display_label(PollError::ServerError, LanguageId::English),
        "5XX"
    );
    assert_eq!(
        poll_error_display_label(PollError::RequestFailed, LanguageId::English),
        "ERR"
    );
}

#[test]
fn normalizes_usage_display_and_alert_settings() {
    let settings = normalize_settings(SettingsFile {
        show_session_window: false,
        show_weekly_window: false,
        alert_threshold_percent: 17,
        notified_quota_windows: vec!["codex:weekly:1".into(), "codex:weekly:1".into()],
        ..SettingsFile::default()
    });
    assert!(settings.show_session_window);
    assert!(!settings.show_weekly_window);
    assert_eq!(settings.alert_threshold_percent, 0);
    assert_eq!(settings.notified_quota_windows.len(), 1);
}

#[test]
fn low_quota_alert_is_deduplicated_until_reset_window_changes() {
    let mut alerts = Vec::new();
    let mut notified: Vec<String> = Vec::new();
    let first_reset: u64 = 2_000_000_000;
    let first = UsageSnapshot {
        remaining_percent: 15,
        reset_unix_secs: Some(first_reset),
        reset_local: None,
    };
    append_quota_alert(
        &mut alerts,
        &mut notified,
        20,
        LanguageId::SimplifiedChinese,
        TrayIconKind::Codex,
        "codex",
        "Codex",
        "session",
        "5小时",
        &first,
    );
    append_quota_alert(
        &mut alerts,
        &mut notified,
        20,
        LanguageId::SimplifiedChinese,
        TrayIconKind::Codex,
        "codex",
        "Codex",
        "session",
        "5小时",
        &first,
    );
    assert_eq!(alerts.len(), 1);
    assert!(alerts[0].message.contains("剩余 15%"));

    let next = UsageSnapshot {
        remaining_percent: 10,
        reset_unix_secs: Some(first_reset + 18_000),
        reset_local: None,
    };
    append_quota_alert(
        &mut alerts,
        &mut notified,
        20,
        LanguageId::SimplifiedChinese,
        TrayIconKind::Codex,
        "codex",
        "Codex",
        "session",
        "5小时",
        &next,
    );
    assert_eq!(alerts.len(), 2);
    assert_eq!(notified.len(), 1);
}

#[test]
fn legacy_settings_default_to_default_appearance() {
    let settings = SettingsFile::default();
    assert_eq!(settings.appearance_preset, AppearancePreset::Compact);
}

#[test]
fn notified_windows_stay_in_key_order() {
    let mut alerts = Vec::new();
    let mut notified = vec!["a:other".to_string(), "z:other".to_string()];
    let low = UsageSnapshot { remaining_percent: 5, reset_unix_secs: Some(42), reset_local: None };
    append_quota_alert(
        &mut alerts,
        &mut notified,
        20,
        LanguageId::English,
        TrayIconKind::Codex,
        "codex",
        "Codex",
        "weekly",
        "Weekly",
        &low,
    );
    append_quota_alert(
        &mut alerts,
        &mut notified,
        20,
        LanguageId::English,
        TrayIconKind::Codex,
        "codex",
        "Codex",
        "session",
        "5-hour",
        &low,
    );
    assert_eq!(alerts.len(), 2);
    let mut sorted = notified.clone();
    sorted.sort();
    assert_eq!(notified, sorted);
    assert_eq!(notified.len(), 4);
    assert_eq!(notified[0], "a:other");
    assert_eq!(notified[3], "z:other");
}
