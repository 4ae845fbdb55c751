use vstd::arithmetic::power2::pow2;
use vstd::prelude::*;

use crate::alerts::ProviderUsage;
use crate::appearance::{
    percent_text, preset_metrics, reset_hint_text, taskbar_line, AppearancePreset, UsageWindowKind,
};
use crate::language::LanguageId;
use crate::style::ThemeMode;
use crate::widget::{poll_error_display_label, poll_error_label_text, PollError};

verus! {

/// First retry delay after a failed poll, in milliseconds.
pub const RETRY_BASE_MS: u32 = 30_000;

/// Polling interval while a reset time has passed, in milliseconds.
pub const RESET_POLL_MS: u32 = 5_000;

/// Which credential sources are watched for a change while polling waits for
/// the user to sign in again.
#[derive(Clone, Copy, Debug, PartialEq, Eq, Structural)]
pub enum CredentialWatchMode {
    ActiveSource,
    AllSources,
}

/// What the poll loop remembers between polls.
#[derive(Clone, Copy, Debug, PartialEq, Eq, Structural)]
pub struct PollStatus {
    pub last_poll_ok: bool,
    pub retry_count: u32,
    pub force_notify_auth_error: bool,
    pub auth_error_paused_polling: bool,
    pub auth_watch_mode: CredentialWatchMode,
}

/// What to do after a successful poll.
#[derive(Clone, Copy, Debug, PartialEq, Eq, Structural)]
pub struct SuccessPlan {
    /// Stop the fast reset-time polling: no reset time has passed.
    pub stop_reset_polling: bool,
    /// Restart the regular poll timer at the configured interval: polls had
    /// been failing and retrying sooner.
    pub restart_poll_timer: bool,
    /// Forget the credential snapshot taken while waiting for a sign-in.
    pub clear_watch_snapshot: bool,
}

/// What to do after a failed poll.
#[derive(Clone, Debug)]
pub struct FailurePlan {
    /// Warn the user that signing in again is needed.
    pub notify_auth_error: bool,
    /// Take a snapshot of these credential sources to notice a new sign-in;
    /// none to forget the snapshot.
    pub watch: Option<CredentialWatchMode>,
    /// The text both usage windows show.
    pub usage_text: String,
    /// Stop the countdown timer.
    pub stop_countdown: bool,
    /// The next poll, in milliseconds from now.
    pub next_poll_ms: u32,
    /// Stop the fast reset-time polling: a failed poll always ends it.
    pub stop_reset_polling: bool,
}

/// The status after a successful poll.
pub open spec fn status_after_success(status: PollStatus) -> PollStatus {
    PollStatus {
        last_poll_ok: true,
        retry_count: 0,
        force_notify_auth_error: false,
        auth_error_paused_polling: false,
        auth_watch_mode: CredentialWatchMode::ActiveSource,
    }
}

/// Decides the poll loop's next step after a successful poll.
pub fn poll_succeeded(status: PollStatus, past_reset: bool) -> (r: (PollStatus, SuccessPlan))
    ensures
        r.0 == status_after_success(status),
        r.1 == (SuccessPlan {
            stop_reset_polling: !past_reset,
            restart_poll_timer: status.retry_count > 0,
            clear_watch_snapshot: true,
        }),
{
    let plan = SuccessPlan {
        stop_reset_polling: !past_reset,
        restart_poll_timer: status.retry_count > 0,
        clear_watch_snapshot: true,
    };
    let next = PollStatus {
        last_poll_ok: true,
        retry_count: 0,
        force_notify_auth_error: false,
        auth_error_paused_polling: false,
        auth_watch_mode: CredentialWatchMode::ActiveSource,
    };
    (next, plan)
}

/// `u32` addition that stops at the largest value.
pub open spec fn saturating_add_u32(a: int, b: int) -> int {
    if a + b > u32::MAX {
        u32::MAX as int
    } else {
        a + b
    }
}

/// `u32` multiplication that stops at the largest value.
pub open spec fn saturating_mul_u32(a: int, b: int) -> int {
    if a * b > u32::MAX {
        u32::MAX as int
    } else {
        a * b
    }
}

/// The doubling factor of the `n`th retry after the first: `2^n`, or the
/// largest `u32` once the shift would pass 31 bits.
pub open spec fn backoff_factor(n: nat) -> int {
    if n < 32 {
        pow2(n) as int
    } else {
        u32::MAX as int
    }
}

/// The delay before retry number `retry_count` (at least 1): the base delay
/// doubled for each earlier retry, capped by the polling interval.
pub open spec fn retry_delay(retry_count: int, poll_interval_ms: int) -> int {
    let backoff = saturating_mul_u32(RETRY_BASE_MS as int, backoff_factor((retry_count - 1) as nat));
    if backoff < poll_interval_ms {
        backoff
    } else {
        poll_interval_ms
    }
}

/// The delay before retry number `retry_count` (at least 1).
pub fn retry_delay_ms(retry_count: u32, poll_interval_ms: u32) -> (ms: u32)
    requires
        retry_count >= 1,
    ensures
        ms == retry_delay(retry_count as int, poll_interval_ms as int),
{
    let shift = retry_count - 1;
    let factor: u32 = if shift < 32 {
        proof {
            vstd::bits::lemma_u32_pow2_no_overflow(shift as nat);
            vstd::bits::lemma_u32_shl_is_mul(1, shift);
        }
        1u32 << shift
    } else {
        u32::MAX
    };
    assert(factor == backoff_factor(shift as nat));
    let backoff: u32 = if factor > u32::MAX / RETRY_BASE_MS {
        assert(RETRY_BASE_MS * factor > u32::MAX) by (nonlinear_arith)
            requires
                factor > u32::MAX / 30000,
        ;
        u32::MAX
    } else {
        assert(RETRY_BASE_MS * factor <= u32::MAX) by (nonlinear_arith)
            requires
                factor <= u32::MAX / 30000,
        ;
        RETRY_BASE_MS * factor
    };
    if backoff < poll_interval_ms {
        backoff
    } else {
        poll_interval_ms
    }
}

/// Law: the retry delay never exceeds the polling interval, and it does not
/// shrink from one retry to the next.
pub proof fn lemma_retry_delay_grows_to_interval(retry_count: int, poll_interval_ms: u32)
    requires
        retry_count >= 1,
    ensures
        retry_delay(retry_count, poll_interval_ms as int) <= poll_interval_ms,
        retry_delay(retry_count, poll_interval_ms as int) <= retry_delay(
            retry_count + 1,
            poll_interval_ms as int,
        ),
{
    let n = (retry_count - 1) as nat;
    if n < 31 {
        vstd::arithmetic::power2::lemma_pow2_strictly_increases(n, n + 1);
        vstd::bits::lemma_u32_pow2_no_overflow(n + 1);
    } else if n == 31 {
        vstd::bits::lemma_u32_pow2_no_overflow(n);
    }
    let f1 = backoff_factor(n);
    let f2 = backoff_factor(n + 1);
    assert(f1 <= f2);
    assert(30000 * f1 <= 30000 * f2) by (nonlinear_arith)
        requires
            f1 <= f2,
    ;
}

/// Law: until the polling interval caps it, each retry waits twice as long
/// as the one before.
pub proof fn lemma_retry_delay_doubles(retry_count: int, poll_interval_ms: u32)
    requires
        retry_count >= 1,
        2 * retry_delay(retry_count, poll_interval_ms as int) <= poll_interval_ms,
    ensures
        retry_delay(retry_count + 1, poll_interval_ms as int) == 2 * retry_delay(
            retry_count,
            poll_interval_ms as int,
        ),
{
    let n = (retry_count - 1) as nat;
    let i = poll_interval_ms as int;
    vstd::arithmetic::power2::lemma2_to64();
    vstd::arithmetic::power2::lemma_pow2_pos(n);
    if n >= 32 {
        assert(backoff_factor(n) == u32::MAX);
        assert(30000 * u32::MAX > u32::MAX);
    } else if n == 31 {
        assert(30000 * pow2(31) > u32::MAX);
    } else {
        vstd::arithmetic::power2::lemma_pow2_unfold(n + 1);
        assert(((n + 1) as nat - 1) as nat == n);
        let f = pow2(n) as int;
        assert(backoff_factor(n) == f);
        assert(backoff_factor(n + 1) == 2 * f);
        if 30000 * f > u32::MAX {
            assert(retry_delay(retry_count, i) == if u32::MAX < i { u32::MAX as int } else { i });
        } else {
            assert(30000 * (2 * f) == 2 * (30000 * f)) by (nonlinear_arith);
        }
    }
}

/// Whether the error means the user has to sign in again.
pub open spec fn is_auth_error(error: PollError) -> bool {
    error is AuthRequired || error is TokenExpired || error is NoCredentials
}

/// The status after a failed poll.
pub open spec fn status_after_failure(status: PollStatus, error: PollError) -> PollStatus {
    PollStatus {
        last_poll_ok: false,
        retry_count: saturating_add_u32(status.retry_count as int, 1) as u32,
        force_notify_auth_error: false,
        auth_error_paused_polling: is_auth_error(error),
        auth_watch_mode: if error is NoCredentials {
            CredentialWatchMode::AllSources
        } else {
            CredentialWatchMode::ActiveSource
        },
    }
}

/// Decides the poll loop's next step after a failed poll. A sign-in error
/// pauses polling at the regular interval, shows `!` and warns the user on
/// the first failure or when a warning was requested; any other error shows
/// its label and retries with a doubling delay.
pub fn poll_failed(status: PollStatus, error: PollError, language: LanguageId, poll_interval_ms: u32) -> (r: (
    PollStatus,
    FailurePlan,
))
    ensures
        r.0 == status_after_failure(status, error),
        r.1.notify_auth_error == (is_auth_error(error) && (status.retry_count == 0
            || status.force_notify_auth_error)),
        r.1.watch == if is_auth_error(error) {
            Some(status_after_failure(status, error).auth_watch_mode)
        } else {
            None::<CredentialWatchMode>
        },
        r.1.usage_text@ == poll_error_label_text(error, language == LanguageId::SimplifiedChinese),
        r.1.stop_countdown == is_auth_error(error),
        r.1.stop_reset_polling,
        error is AuthRequired || error is TokenExpired ==> r.0.auth_error_paused_polling
            && r.1.watch == Some(CredentialWatchMode::ActiveSource) && r.1.stop_countdown
            && r.1.next_poll_ms == poll_interval_ms && r.1.notify_auth_error == (status.retry_count
            == 0 || status.force_notify_auth_error) && r.1.usage_text@ == "!"@,
        error is NoCredentials ==> r.0.auth_error_paused_polling && r.1.watch == Some(
            CredentialWatchMode::AllSources,
        ) && r.1.stop_countdown && r.1.next_poll_ms == poll_interval_ms && r.1.notify_auth_error
            == (status.retry_count == 0 || status.force_notify_auth_error) && r.1.usage_text@ == "!"@,
        error is NetworkUnavailable || error is RateLimited || error is ServerError
            || error is RequestFailed ==> !r.0.auth_error_paused_polling && r.1.watch is None
            && !r.1.stop_countdown && !r.1.notify_auth_error && r.1.next_poll_ms == retry_delay(
            r.0.retry_count as int,
            poll_interval_ms as int,
        ),
        r.1.next_poll_ms == if is_auth_error(error) {
            poll_interval_ms as int
        } else {
            retry_delay(status_after_failure(status, error).retry_count as int, poll_interval_ms as int)
        },
{
    let retry_count = status.retry_count.saturating_add(1);
    let auth = match error {
        PollError::AuthRequired | PollError::TokenExpired | PollError::NoCredentials => true,
        _ => false,
    };
    let mode = match error {
        PollError::NoCredentials => CredentialWatchMode::AllSources,
        _ => CredentialWatchMode::ActiveSource,
    };
    let next = PollStatus {
        last_poll_ok: false,
        retry_count,
        force_notify_auth_error: false,
        auth_error_paused_polling: auth,
        auth_watch_mode: mode,
    };
    let label = poll_error_display_label(error, language);
    if auth {
        let plan = FailurePlan {
            notify_auth_error: status.retry_count == 0 || status.force_notify_auth_error,
            watch: Some(mode),
            usage_text: crate::text::to_string(label),
            stop_countdown: true,
            next_poll_ms: poll_interval_ms,
            stop_reset_polling: true,
        };
        (next, plan)
    } else {
        let plan = FailurePlan {
            notify_auth_error: false,
            watch: None,
            usage_text: crate::text::to_string(label),
            stop_countdown: false,
            next_poll_ms: retry_delay_ms(retry_count, poll_interval_ms),
            stop_reset_polling: true,
        };
        (next, plan)
    }
}

/// Whether a timer tick starts a poll. The reset-time timer polls unless
/// polling waits for a sign-in; the regular timer then polls only when the
/// credential snapshot has changed since the last look.
pub fn poll_timer_due(status: PollStatus, snapshot_changed: bool, reset_timer: bool) -> (poll: bool)
    ensures
        poll == if reset_timer {
            !status.auth_error_paused_polling
        } else {
            !status.auth_error_paused_polling || snapshot_changed
        },
{
    if status.auth_error_paused_polling {
        !reset_timer && snapshot_changed
    } else {
        true
    }
}

/// Law: a failed poll counts one more failure (stopping at the largest
/// count). A sign-in error (authentication required, an expired token or no
/// credentials at all) pauses polling until the user signs in again and
/// watches the credentials for that, the active source for an expired or
/// refused sign-in and every source when none was found; any other error
/// retries on the back-off. The poll loop is marked failed either way, and
/// no warning is left pending.
pub proof fn lemma_failed_poll_status(status: PollStatus, error: PollError)
    ensures
        !status_after_failure(status, error).last_poll_ok,
        !status_after_failure(status, error).force_notify_auth_error,
        status.retry_count < u32::MAX ==> status_after_failure(status, error).retry_count
            == status.retry_count + 1,
        status.retry_count == u32::MAX ==> status_after_failure(status, error).retry_count
            == u32::MAX,
        status_after_failure(status, error).auth_error_paused_polling <==> (error is AuthRequired
            || error is TokenExpired || error is NoCredentials),
        error is AuthRequired || error is TokenExpired ==> status_after_failure(
            status,
            error,
        ).auth_watch_mode == CredentialWatchMode::ActiveSource,
        error is NoCredentials ==> status_after_failure(status, error).auth_watch_mode
            == CredentialWatchMode::AllSources,
{
}

/// Law: a poll that succeeds after any history resets the loop: the next
/// failure is again the first one, so it warns and retries after the base
/// delay.
pub proof fn lemma_success_resets_failures(status: PollStatus, poll_interval_ms: u32)
    ensures
        status_after_success(status).last_poll_ok,
        status_after_success(status).retry_count == 0,
        !status_after_success(status).auth_error_paused_polling,
        status_after_failure(status_after_success(status), PollError::ServerError).retry_count == 1,
        retry_delay(1, poll_interval_ms as int) == if poll_interval_ms < RETRY_BASE_MS {
            poll_interval_ms as int
        } else {
            RETRY_BASE_MS as int
        },
{
    assert(pow2(0) == 1) by {
        vstd::arithmetic::power2::lemma2_to64();
    }
}

/// The countdown refresh delay: until the first of the two windows' displays
/// changes, a minute when neither is known, and never under a second. The
/// result is taken to 32 bits as the timer takes it.
pub open spec fn countdown_delay(session_ms: Option<u128>, weekly_ms: Option<u128>) -> int {
    let shortest: int = match (session_ms, weekly_ms) {
        (Some(a), Some(b)) => if a <= b {
            a as int
        } else {
            b as int
        },
        (Some(a), None) => a as int,
        (None, Some(b)) => b as int,
        (None, None) => 60_000,
    };
    (if shortest > 1000 {
        shortest
    } else {
        1000
    }) % 0x1_0000_0000
}

/// The countdown refresh delay in milliseconds.
pub fn countdown_delay_ms(session_ms: Option<u128>, weekly_ms: Option<u128>) -> (ms: u32)
    ensures
        ms == countdown_delay(session_ms, weekly_ms),
{
    let shortest: u128 = match (session_ms, weekly_ms) {
        (Some(a), Some(b)) => if a <= b {
            a
        } else {
            b
        },
        (Some(a), None) => a,
        (None, Some(b)) => b,
        (None, None) => 60_000,
    };
    let at_least = if shortest > 1000 {
        shortest
    } else {
        1000
    };
    (at_least % 0x1_0000_0000) as u32
}

/// Following the system theme: the new dark flag, and whether it changed. A
/// fixed theme mode ignores the system.
pub fn follow_system_theme(theme_mode: ThemeMode, is_dark: bool, system_dark: bool) -> (r: (bool, bool))
    ensures
        theme_mode != ThemeMode::System ==> r == (is_dark, false),
        theme_mode == ThemeMode::System ==> r == (system_dark, is_dark != system_dark),
{
    if theme_mode != ThemeMode::System {
        (is_dark, false)
    } else if is_dark != system_dark {
        (system_dark, true)
    } else {
        (is_dark, false)
    }
}

/// The widget line of one window, as `taskbar_line` writes it.
pub open spec fn line_text(preset: AppearancePreset, remaining: u8, reset: Option<crate::appearance::LocalTime>, window: UsageWindowKind) -> Seq<char> {
    if !preset_metrics(preset).hide_reset_time && reset is Some {
        percent_text(remaining as nat) + "  "@ + reset_hint_text(reset.unwrap(), window)
    } else {
        percent_text(remaining as nat)
    }
}

/// The widget lines of the session and weekly windows after usage data
/// arrives or the layout changes; none while the last poll failed (its error
/// text stays) or no usage is known.
pub fn refreshed_usage_texts(
    last_poll_ok: bool,
    preset: AppearancePreset,
    language: LanguageId,
    codex: Option<ProviderUsage>,
) -> (r: Option<(String, String)>)
    ensures
        !last_poll_ok || codex is None ==> r is None,
        last_poll_ok && codex is Some ==> r is Some && r.unwrap().0@ == line_text(
            preset,
            codex.unwrap().session.remaining_percent,
            codex.unwrap().session.reset_local,
            UsageWindowKind::Session,
        ) && r.unwrap().1@ == line_text(
            preset,
            codex.unwrap().weekly.remaining_percent,
            codex.unwrap().weekly.reset_local,
            UsageWindowKind::Weekly,
        ),
{
    if !last_poll_ok {
        return None;
    }
    match codex {
        Some(usage) => {
            let session = taskbar_line(
                preset,
                language,
                usage.session.remaining_percent as u64,
                usage.session.reset_local,
                UsageWindowKind::Session,
            );
            let weekly = taskbar_line(
                preset,
                language,
                usage.weekly.remaining_percent as u64,
                usage.weekly.reset_local,
                UsageWindowKind::Weekly,
            );
            Some((session, weekly))
        },
        None => None,
    }
}

} // verus!
