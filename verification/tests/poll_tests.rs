use codex_usage_win::alerts::{ProviderUsage, UsageSnapshot};
use codex_usage_win::appearance::{AppearancePreset, LocalTime};
use codex_usage_win::language::LanguageId;
use codex_usage_win::poll_cycle::{
    countdown_delay_ms, follow_system_theme, poll_failed, poll_succeeded, poll_timer_due,
    refreshed_usage_texts, retry_delay_ms,
    CredentialWatchMode, PollStatus,
};
use codex_usage_win::style::ThemeMode;
use codex_usage_win::widget::PollError;

fn ok_status() -> PollStatus {
    PollStatus {
        last_poll_ok: true,
        retry_count: 0,
        force_notify_auth_error: false,
        auth_error_paused_polling: false,
        auth_watch_mode: CredentialWatchMode::ActiveSource,
    }
}

#[test]
fn retries_double_from_thirty_seconds_up_to_the_interval() {
    assert_eq!(retry_delay_ms(1, 900_000), 30_000);
    assert_eq!(retry_delay_ms(2, 900_000), 60_000);
    assert_eq!(retry_delay_ms(5, 900_000), 480_000);
    assert_eq!(retry_delay_ms(6, 900_000), 900_000);
    assert_eq!(retry_delay_ms(40, 900_000), 900_000);
    assert_eq!(retry_delay_ms(33, u32::MAX), u32::MAX);
    assert_eq!(retry_delay_ms(3, u32::MAX), 120_000);
}

#[test]
fn network_errors_retry_with_backoff_and_show_their_label() {
    let (status, plan) = poll_failed(ok_status(), PollError::NetworkUnavailable, LanguageId::SimplifiedChinese, 900_000);
    assert_eq!(status.retry_count, 1);
    assert!(!status.last_poll_ok);
    assert!(!plan.notify_auth_error);
    assert_eq!(plan.usage_text, "网络");
    assert_eq!(plan.next_poll_ms, 30_000);
    let (status, plan) = poll_failed(status, PollError::ServerError, LanguageId::English, 900_000);
    assert_eq!(status.retry_count, 2);
    assert_eq!(plan.usage_text, "5XX");
    assert_eq!(plan.next_poll_ms, 60_000);
}

#[test]
fn sign_in_errors_warn_once_and_pause_at_the_interval() {
    let (status, plan) = poll_failed(ok_status(), PollError::TokenExpired, LanguageId::English, 60_000);
    assert!(plan.notify_auth_error);
    assert_eq!(plan.usage_text, "!");
    assert_eq!(plan.next_poll_ms, 60_000);
    assert_eq!(plan.watch, Some(CredentialWatchMode::ActiveSource));
    assert!(status.auth_error_paused_polling);
    let (status, plan) = poll_failed(status, PollError::NoCredentials, LanguageId::English, 60_000);
    assert!(!plan.notify_auth_error);
    assert_eq!(plan.watch, Some(CredentialWatchMode::AllSources));
    assert_eq!(status.auth_watch_mode, CredentialWatchMode::AllSources);
    let (status, plan) = poll_succeeded(status, false);
    assert_eq!(status, ok_status());
    assert!(plan.restart_poll_timer);
    assert!(plan.stop_reset_polling);
}

#[test]
fn countdown_waits_for_the_next_display_change() {
    assert_eq!(countdown_delay_ms(None, None), 60_000);
    assert_eq!(countdown_delay_ms(Some(5_000), Some(3_000)), 3_000);
    assert_eq!(countdown_delay_ms(Some(10), None), 1_000);
    assert_eq!(countdown_delay_ms(None, Some(70_000)), 70_000);
}

#[test]
fn system_theme_is_followed_only_in_system_mode() {
    assert_eq!(follow_system_theme(ThemeMode::System, false, true), (true, true));
    assert_eq!(follow_system_theme(ThemeMode::System, true, true), (true, false));
    assert_eq!(follow_system_theme(ThemeMode::Light, false, true), (false, false));
}

#[test]
fn usage_texts_refresh_only_after_a_good_poll() {
    use_refresh();
}

fn use_refresh() {
    let reset = LocalTime { year: 2026, month: 7, day: 18, hour: 19, minute: 4 };
    let usage = ProviderUsage {
        session: UsageSnapshot { remaining_percent: 13, reset_unix_secs: None, reset_local: Some(reset) },
        weekly: UsageSnapshot { remaining_percent: 86, reset_unix_secs: None, reset_local: None },
    };
    let texts = refreshed_usage_texts(true, AppearancePreset::Compact, LanguageId::English, Some(usage)).unwrap();
    assert_eq!(texts.0, "13%  19:04");
    assert_eq!(texts.1, "86%");
    let minimal = refreshed_usage_texts(true, AppearancePreset::Minimal, LanguageId::English, Some(usage)).unwrap();
    assert_eq!(minimal.0, "13%");
    assert!(refreshed_usage_texts(false, AppearancePreset::Compact, LanguageId::English, Some(usage)).is_none());
    assert!(refreshed_usage_texts(true, AppearancePreset::Compact, LanguageId::English, None).is_none());
}

#[test]
fn every_failed_poll_stops_reset_time_polling() {
    let (status, plan) = poll_failed(ok_status(), PollError::ServerError, LanguageId::English, 900_000);
    assert!(plan.stop_reset_polling);
    let (_, plan) = poll_failed(status, PollError::AuthRequired, LanguageId::English, 900_000);
    assert!(plan.stop_reset_polling);
}

#[test]
fn timers_poll_only_when_not_waiting_for_sign_in() {
    let running = ok_status();
    let waiting = PollStatus { auth_error_paused_polling: true, ..ok_status() };
    assert!(poll_timer_due(running, false, false));
    assert!(poll_timer_due(running, false, true));
    assert!(!poll_timer_due(waiting, false, false));
    assert!(poll_timer_due(waiting, true, false));
    assert!(!poll_timer_due(waiting, true, true));
}
