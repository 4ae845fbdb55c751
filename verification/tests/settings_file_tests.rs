use codex_usage_win::appearance::AppearancePreset;
use codex_usage_win::settings_file::{
    normalize_settings, sorted_unique_keys, str_less, SettingsFile, POLL_15_MIN,
};
use codex_usage_win::style::ThemeMode;

#[test]
fn fresh_settings_show_both_windows_and_poll_quarter_hourly() {
    let s = SettingsFile::default_settings();
    assert_eq!(s.poll_interval_ms, POLL_15_MIN);
    assert_eq!(s.poll_interval_ms, 900_000);
    assert!(s.show_session_window && s.show_weekly_window);
    assert_eq!(s.appearance_preset, AppearancePreset::Compact);
    assert_eq!(s.theme_mode, ThemeMode::System);
    assert_eq!(s.alert_threshold_percent, 0);
    assert!(s.language.is_none());
}

#[test]
fn notified_keys_are_sorted_and_deduplicated() {
    let keys = vec![
        "codex:weekly:2".to_string(),
        "codex:session:9".to_string(),
        "codex:weekly:2".to_string(),
        "codex:session:10".to_string(),
    ];
    let mut expected = keys.clone();
    expected.sort();
    expected.dedup();
    assert_eq!(sorted_unique_keys(keys), expected);
}

#[test]
fn string_order_follows_std() {
    let words = ["", "a", "ab", "b", "Z", "é", "zz", "额度"];
    for a in words {
        for b in words {
            assert_eq!(str_less(a, b), a < b, "{a} < {b}");
        }
    }
}

#[test]
fn valid_thresholds_are_kept_and_session_choice_too() {
    for t in [0u8, 10, 20, 30] {
        let mut s = SettingsFile::default_settings();
        s.alert_threshold_percent = t;
        s.show_session_window = false;
        let n = normalize_settings(s);
        assert_eq!(n.alert_threshold_percent, t);
        assert!(!n.show_session_window);
        assert!(n.show_weekly_window);
    }
}

#[test]
fn normalizing_twice_changes_nothing_more() {
    let mut s = SettingsFile::default_settings();
    s.alert_threshold_percent = 99;
    s.notified_quota_windows = vec!["b".into(), "a".into(), "b".into()];
    s.styles.dark.panel_background = "bad".into();
    s.styles.light.panel_frosted_strength = 250;
    let once = normalize_settings(s);
    let twice = normalize_settings(once.clone());
    assert_eq!(once.notified_quota_windows, twice.notified_quota_windows);
    assert_eq!(once.notified_quota_windows, vec!["a".to_string(), "b".to_string()]);
    assert_eq!(once.alert_threshold_percent, twice.alert_threshold_percent);
    assert_eq!(once.styles.dark.panel_background, twice.styles.dark.panel_background);
    assert_eq!(once.styles.dark.panel_background, "#242A31FF");
    assert_eq!(once.styles.light.panel_frosted_strength, 100);
    assert_eq!(twice.styles.light.panel_frosted_strength, 100);
}
