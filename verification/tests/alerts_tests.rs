use codex_usage_win::alerts::{
    append_quota_alert, collect_low_quota_alerts, has_prefix, notification_of, ProviderUsage,
    QuotaAlert, TrayIconKind, UsageSnapshot,
};
use codex_usage_win::appearance::LocalTime;
use codex_usage_win::language::LanguageId;

fn snapshot(remaining: u8, reset: Option<u64>) -> UsageSnapshot {
    UsageSnapshot { remaining_percent: remaining, reset_unix_secs: reset, reset_local: None }
}

#[test]
fn english_alert_names_window_percentage_and_reset() {
    let mut alerts = Vec::new();
    let mut notified = Vec::new();
    let section = UsageSnapshot {
        remaining_percent: 7,
        reset_unix_secs: Some(42),
        reset_local: Some(LocalTime { year: 2026, month: 1, day: 2, hour: 3, minute: 4 }),
    };
    append_quota_alert(
        &mut alerts,
        &mut notified,
        10,
        LanguageId::English,
        TrayIconKind::Codex,
        "codex",
        "Codex",
        "weekly",
        "Weekly",
        &section,
    );
    assert_eq!(alerts.len(), 1);
    assert_eq!(alerts[0].title, "Codex quota");
    assert_eq!(alerts[0].message, "Weekly 7% remaining · reset 2026-01-02 03:04");
    assert_eq!(notified, vec!["codex:weekly:42".to_string()]);
}

#[test]
fn chinese_alert_without_reset_says_unknown() {
    let mut alerts = Vec::new();
    let mut notified = Vec::new();
    append_quota_alert(
        &mut alerts,
        &mut notified,
        30,
        LanguageId::SimplifiedChinese,
        TrayIconKind::Codex,
        "codex",
        "Codex",
        "session",
        "5小时",
        &snapshot(30, None),
    );
    assert_eq!(alerts[0].title, "Codex 额度");
    assert_eq!(alerts[0].message, "5小时 剩余 30% · 未知 重置");
    assert_eq!(notified, vec!["codex:session:unknown".to_string()]);
}

#[test]
fn window_above_threshold_raises_nothing_but_drops_old_resets() {
    let mut alerts = Vec::new();
    let mut notified = vec!["codex:session:1".to_string(), "codex:weekly:5".to_string()];
    append_quota_alert(
        &mut alerts,
        &mut notified,
        20,
        LanguageId::English,
        TrayIconKind::Codex,
        "codex",
        "Codex",
        "session",
        "5h",
        &snapshot(21, Some(2)),
    );
    assert!(alerts.is_empty());
    assert_eq!(notified, vec!["codex:weekly:5".to_string()]);
}

#[test]
fn provider_check_covers_both_windows_in_order() {
    let mut notified = Vec::new();
    let usage = ProviderUsage { session: snapshot(5, Some(100)), weekly: snapshot(8, Some(200)) };
    let alerts = collect_low_quota_alerts(
        &mut notified,
        10,
        LanguageId::English,
        Some(usage),
        "Codex",
        "5h",
        "Weekly",
    );
    assert_eq!(alerts.len(), 2);
    assert!(alerts[0].message.starts_with("5h "));
    assert!(alerts[1].message.starts_with("Weekly "));
    assert_eq!(notified.len(), 2);
    let again = collect_low_quota_alerts(
        &mut notified,
        10,
        LanguageId::English,
        Some(usage),
        "Codex",
        "5h",
        "Weekly",
    );
    assert!(again.is_empty());
}

#[test]
fn alerts_off_collects_nothing() {
    let mut notified = vec!["codex:session:1".to_string()];
    let usage = ProviderUsage { session: snapshot(0, Some(1)), weekly: snapshot(0, Some(2)) };
    let alerts =
        collect_low_quota_alerts(&mut notified, 0, LanguageId::English, Some(usage), "C", "s", "w");
    assert!(alerts.is_empty());
    assert_eq!(notified, vec!["codex:session:1".to_string()]);
}

#[test]
fn notification_joins_messages_under_first_title() {
    let alerts = vec![
        QuotaAlert { kind: TrayIconKind::Codex, title: "A".into(), message: "one".into() },
        QuotaAlert { kind: TrayIconKind::Codex, title: "B".into(), message: "two".into() },
    ];
    let n = notification_of(&alerts).unwrap();
    assert_eq!(n.0, TrayIconKind::Codex);
    assert_eq!(n.1, "A");
    assert_eq!(n.2, "one\ntwo");
    assert!(notification_of(&Vec::new()).is_none());
}

#[test]
fn prefix_test_matches_std() {
    assert!(has_prefix("codex:session:1", "codex:session:"));
    assert!(!has_prefix("codex:weekly:1", "codex:session:"));
    assert!(has_prefix("abc", ""));
    assert!(!has_prefix("ab", "abc"));
}
