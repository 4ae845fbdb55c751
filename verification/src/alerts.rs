use vstd::prelude::*;

use crate::appearance::{format_precise_reset_time, local_time_text, LocalTime};
use crate::language::LanguageId;
use crate::settings_file::{lemma_lex_lt_total, lemma_lex_lt_transitive, lex_lt, str_less, strictly_sorted};
use crate::text::{
    chars_of, decimal, lemma_decimal_digits, lemma_decimal_injective, lemma_decimal_len_pos,
    push_char, push_decimal, push_str, str_eq,
};

verus! {

/// The tray icon a notification is shown under.
#[derive(Clone, Copy, Debug, PartialEq, Eq, Structural)]
pub enum TrayIconKind {
    Codex,
}

/// A low-quota notification.
#[derive(Clone, Debug)]
pub struct QuotaAlert {
    pub kind: TrayIconKind,
    pub title: String,
    pub message: String,
}

/// What an alert needs of one usage window: the remaining percentage
/// (rounded), the reset instant in Unix seconds and the same instant in local
/// time, where known.
#[derive(Clone, Copy, Debug, PartialEq, Eq, Structural)]
pub struct UsageSnapshot {
    pub remaining_percent: u8,
    pub reset_unix_secs: Option<u64>,
    pub reset_local: Option<LocalTime>,
}

/// The session and weekly windows of one provider.
#[derive(Clone, Copy, Debug, PartialEq, Eq, Structural)]
pub struct ProviderUsage {
    pub session: UsageSnapshot,
    pub weekly: UsageSnapshot,
}

/// `provider:window:`, the part of a notified key shared by every reset of
/// one window.
pub open spec fn window_prefix(provider_key: Seq<char>, window_key: Seq<char>) -> Seq<char> {
    provider_key + seq![':'] + window_key + seq![':']
}

/// The reset part of a notified key: the Unix seconds, or `unknown`.
pub open spec fn reset_key_text(reset: Option<u64>) -> Seq<char> {
    match reset {
        Some(secs) => decimal(secs as nat),
        None => "unknown"@,
    }
}

/// The key that records one notified reset window.
pub open spec fn alert_key(provider_key: Seq<char>, window_key: Seq<char>, reset: Option<u64>) -> Seq<char> {
    window_prefix(provider_key, window_key) + reset_key_text(reset)
}

/// Whether some entry of `v` holds the characters `k`.
pub open spec fn holds_key(v: Seq<String>, k: Seq<char>) -> bool {
    exists|i: int| 0 <= i < v.len() && (#[trigger] v[i])@ == k
}

/// No two entries of `v` hold the same characters.
pub open spec fn distinct_keys(v: Seq<String>) -> bool {
    forall|i: int, j: int| 0 <= i < j < v.len() ==> (#[trigger] v[i])@ != (#[trigger] v[j])@
}

/// Whether `k` survives the clean-up of a window: keys of other windows stay,
/// and of this window only the current reset.
pub open spec fn kept_key(k: Seq<char>, prefix: Seq<char>, key: Seq<char>) -> bool {
    !prefix.is_prefix_of(k) || k == key
}

/// Whether a window `remaining` percent full is at or below the threshold.
pub open spec fn is_low(remaining: u8, threshold: u8) -> bool {
    remaining <= threshold
}

/// The notification title.
pub open spec fn alert_title(language: LanguageId, provider_label: Seq<char>) -> Seq<char> {
    if language == LanguageId::SimplifiedChinese {
        provider_label + " 额度"@
    } else {
        provider_label + " quota"@
    }
}

/// The notification message.
pub open spec fn alert_message(
    language: LanguageId,
    window_label: Seq<char>,
    remaining: u8,
    reset: Option<LocalTime>,
) -> Seq<char> {
    if language == LanguageId::SimplifiedChinese {
        let when = match reset {
            Some(t) => local_time_text(t),
            None => "未知"@,
        };
        window_label + " 剩余 "@ + decimal(remaining as nat) + "% · "@ + when + " 重置"@
    } else {
        let when = match reset {
            Some(t) => local_time_text(t),
            None => "unknown"@,
        };
        window_label + " "@ + decimal(remaining as nat) + "% remaining · reset "@ + when
    }
}

/// Whether `s` begins with the characters of `p`.
pub fn has_prefix(s: &str, p: &str) -> (b: bool)
    ensures
        b == p@.is_prefix_of(s@),
{
    let sv = chars_of(s);
    let pv = chars_of(p);
    if pv.len() > sv.len() {
        return false;
    }
    let mut i: usize = 0;
    while i < pv.len()
        invariant
            pv.len() <= sv.len(),
            i <= pv.len(),
            sv@ == s@,
            pv@ == p@,
            forall|k: int| 0 <= k < i ==> sv@[k] == pv@[k],
        decreases pv.len() - i,
    {
        if sv[i] != pv[i] {
            assert(p@ != s@.subrange(0, p@.len() as int)) by {
                assert(s@.subrange(0, p@.len() as int)[i as int] == sv@[i as int]);
            }
            return false;
        }
        i = i + 1;
    }
    assert(p@ =~= s@.subrange(0, p@.len() as int));
    true
}

/// `provider:window:` as a string.
fn window_prefix_string(provider_key: &str, window_key: &str) -> (s: String)
    ensures
        s@ == window_prefix(provider_key@, window_key@),
{
    let mut s = String::new();
    push_str(&mut s, provider_key);
    push_char(&mut s, ':');
    push_str(&mut s, window_key);
    push_char(&mut s, ':');
    assert(s@ =~= window_prefix(provider_key@, window_key@));
    s
}

/// The notification title as a string.
fn alert_title_string(language: LanguageId, provider_label: &str) -> (s: String)
    ensures
        s@ == alert_title(language, provider_label@),
{
    let mut s = String::new();
    push_str(&mut s, provider_label);
    if language == LanguageId::SimplifiedChinese {
        push_str(&mut s, " 额度");
    } else {
        push_str(&mut s, " quota");
    }
    s
}

/// The notification message as a string.
fn alert_message_string(
    language: LanguageId,
    window_label: &str,
    remaining: u8,
    reset: Option<LocalTime>,
) -> (s: String)
    ensures
        s@ == alert_message(language, window_label@, remaining, reset),
{
    let when = format_precise_reset_time(reset);
    let mut s = String::new();
    push_str(&mut s, window_label);
    if language == LanguageId::SimplifiedChinese {
        push_str(&mut s, " 剩余 ");
        push_decimal(&mut s, remaining as u64);
        push_str(&mut s, "% · ");
        match when {
            Some(w) => push_str(&mut s, w.as_str()),
            None => push_str(&mut s, "未知"),
        }
        push_str(&mut s, " 重置");
    } else {
        push_str(&mut s, " ");
        push_decimal(&mut s, remaining as u64);
        push_str(&mut s, "% remaining · reset ");
        match when {
            Some(w) => push_str(&mut s, w.as_str()),
            None => push_str(&mut s, "unknown"),
        }
    }
    s
}

/// Removes from `notified` the keys of the window `prefix` other than `key`.
#[verifier::spinoff_prover]
fn retain_window_keys(notified: &mut Vec<String>, prefix: &String, key: &String)
    requires
        distinct_keys(old(notified)@),
    ensures
        distinct_keys(final(notified)@),
        strictly_sorted(old(notified)@) ==> strictly_sorted(final(notified)@),
        forall|k: Seq<char>|
            holds_key(final(notified)@, k) <==> (holds_key(old(notified)@, k) && kept_key(
                k,
                prefix@,
                key@,
            )),
{
    let mut old_keys: Vec<String> = Vec::new();
    std::mem::swap(&mut old_keys, notified);
    let ghost before = old_keys@;
    assert(before == old(notified)@);
    let mut i: usize = 0;
    while i < old_keys.len()
        invariant
            old_keys@ == before,
            distinct_keys(before),
            i <= old_keys.len(),
            distinct_keys(notified@),
            strictly_sorted(before) ==> strictly_sorted(notified@),
            forall|j: int|
                0 <= j < notified@.len() ==> holds_key(before.take(i as int), (#[trigger] notified@[j])@),
            forall|k: Seq<char>|
                holds_key(notified@, k) <==> (holds_key(before.take(i as int), k) && kept_key(
                    k,
                    prefix@,
                    key@,
                )),
        decreases old_keys.len() - i,
    {
        let entry = &old_keys[i];
        let keep = !has_prefix(entry.as_str(), prefix.as_str()) || str_eq(
            entry.as_str(),
            key.as_str(),
        );
        let ghost next = before.take(i + 1);
        assert(next == before.take(i as int).push(before[i as int]));
        assert forall|k: Seq<char>| holds_key(next, k) <==> (holds_key(before.take(i as int), k) || k == before[i as int]@) by {
            if holds_key(next, k) {
                let w = choose|w: int| 0 <= w < next.len() && (#[trigger] next[w])@ == k;
                if w < i {
                    assert(before.take(i as int)[w] == next[w]);
                }
            }
            if holds_key(before.take(i as int), k) {
                let w = choose|w: int| 0 <= w < i && (#[trigger] before.take(i as int)[w])@ == k;
                assert(next[w] == before.take(i as int)[w]);
            }
            if k == before[i as int]@ {
                assert(next[i as int] == before[i as int]);
            }
        }
        assert(!holds_key(before.take(i as int), before[i as int]@)) by {
            if holds_key(before.take(i as int), before[i as int]@) {
                let w = choose|w: int| 0 <= w < i && (#[trigger] before.take(i as int)[w])@ == before[i as int]@;
                assert(before[w]@ == before[i as int]@);
            }
        }
        if keep {
            let ghost prev = notified@;
            notified.push(entry.clone());
            proof {
                if strictly_sorted(before) {
                    assert forall|a: int, b: int| 0 <= a < b < notified@.len() implies lex_lt(
                        (#[trigger] notified@[a])@,
                        (#[trigger] notified@[b])@,
                    ) by {
                        assert(notified@[a] == prev[a]);
                        if b == prev.len() {
                            assert(holds_key(before.take(i as int), prev[a]@));
                            let w = choose|w: int| 0 <= w < i && (#[trigger] before.take(i as int)[w])@ == prev[a]@;
                            assert(before.take(i as int)[w] == before[w]);
                        } else {
                            assert(notified@[b] == prev[b]);
                        }
                    }
                }
            }
            assert forall|a: int, b: int| 0 <= a < b < notified@.len() implies (#[trigger] notified@[a])@ != (#[trigger] notified@[b])@ by {
                if b == prev.len() {
                    assert(notified@[a] == prev[a]);
                    assert(holds_key(before.take(i as int), prev[a]@));
                } else {
                    assert(notified@[a] == prev[a]);
                    assert(notified@[b] == prev[b]);
                }
            }
            assert forall|j: int| 0 <= j < notified@.len() implies holds_key(next, (#[trigger] notified@[j])@) by {
                if j < prev.len() {
                    assert(notified@[j] == prev[j]);
                    assert(holds_key(before.take(i as int), prev[j]@));
                }
            }
            assert forall|k: Seq<char>| holds_key(notified@, k) <==> (holds_key(next, k) && kept_key(k, prefix@, key@)) by {
                if holds_key(notified@, k) {
                    let w = choose|w: int| 0 <= w < notified@.len() && (#[trigger] notified@[w])@ == k;
                    if w < prev.len() {
                        assert(notified@[w] == prev[w]);
                        assert(holds_key(prev, k));
                    }
                }
                if holds_key(prev, k) {
                    let w = choose|w: int| 0 <= w < prev.len() && (#[trigger] prev[w])@ == k;
                    assert(notified@[w] == prev[w]);
                }
                if k == before[i as int]@ {
                    assert(notified@[prev.len() as int] == before[i as int]);
                }
            }
        } else {
            assert forall|j: int| 0 <= j < notified@.len() implies holds_key(next, (#[trigger] notified@[j])@) by {
                assert(holds_key(before.take(i as int), notified@[j]@));
            }
        }
        i = i + 1;
    }
    assert(before.take(old_keys.len() as int) == before);
}

/// Whether an entry of `v` holds the characters of `key`.
fn holds_string(v: &Vec<String>, key: &String) -> (b: bool)
    ensures
        b == holds_key(v@, key@),
{
    let mut i: usize = 0;
    while i < v.len()
        invariant
            i <= v.len(),
            forall|j: int| 0 <= j < i ==> (#[trigger] v@[j])@ != key@,
        decreases v.len() - i,
    {
        if str_eq(v[i].as_str(), key.as_str()) {
            return true;
        }
        i = i + 1;
    }
    false
}

/// The notified keys after a check of one window: those of other windows,
/// this window's key for the current reset if it was there, and that key
/// whenever the window is low.
pub open spec fn notified_after(
    before: Seq<String>,
    after: Seq<String>,
    prefix: Seq<char>,
    key: Seq<char>,
    low: bool,
) -> bool {
    forall|k: Seq<char>|
        holds_key(after, k) <==> ((holds_key(before, k) && kept_key(k, prefix, key)) || (low && k
            == key))
}

/// Whether a check of a window raises a notification: it is low and its
/// current reset was not notified yet.
pub open spec fn alert_due(before: Seq<String>, key: Seq<char>, low: bool) -> bool {
    low && !holds_key(before, key)
}

/// Checks one usage window against the alert threshold. Keys of earlier
/// resets of the window are dropped from `notified`; when the window is at or
/// below `threshold` percent and its current reset was not notified yet, the
/// reset is recorded and a notification is appended to `alerts`.
#[verifier::spinoff_prover]
pub fn append_quota_alert(
    alerts: &mut Vec<QuotaAlert>,
    notified: &mut Vec<String>,
    threshold: u8,
    language: LanguageId,
    kind: TrayIconKind,
    provider_key: &str,
    provider_label: &str,
    window_key: &str,
    window_label: &str,
    section: &UsageSnapshot,
)
    requires
        distinct_keys(old(notified)@),
    ensures
        distinct_keys(final(notified)@),
        strictly_sorted(old(notified)@) ==> strictly_sorted(final(notified)@),
        notified_after(
            old(notified)@,
            final(notified)@,
            window_prefix(provider_key@, window_key@),
            alert_key(provider_key@, window_key@, section.reset_unix_secs),
            is_low(section.remaining_percent, threshold),
        ),
        forall|k: Seq<char>|
            holds_key(final(notified)@, k) && window_prefix(provider_key@, window_key@).is_prefix_of(k)
                ==> k == alert_key(provider_key@, window_key@, section.reset_unix_secs),
        alert_due(
            old(notified)@,
            alert_key(provider_key@, window_key@, section.reset_unix_secs),
            is_low(section.remaining_percent, threshold),
        ) ==> {
            &&& final(alerts)@.len() == old(alerts)@.len() + 1
            &&& final(alerts)@.take(old(alerts)@.len() as int) == old(alerts)@
            &&& final(alerts)@.last().kind == kind
            &&& final(alerts)@.last().title@ == alert_title(language, provider_label@)
            &&& final(alerts)@.last().message@ == alert_message(
                language,
                window_label@,
                section.remaining_percent,
                section.reset_local,
            )
        },
        !alert_due(
            old(notified)@,
            alert_key(provider_key@, window_key@, section.reset_unix_secs),
            is_low(section.remaining_percent, threshold),
        ) ==> final(alerts)@ == old(alerts)@,
{
    let prefix = window_prefix_string(provider_key, window_key);
    let mut key = prefix.clone();
    match section.reset_unix_secs {
        Some(secs) => push_decimal(&mut key, secs),
        None => push_str(&mut key, "unknown"),
    }
    assert(key@ == alert_key(provider_key@, window_key@, section.reset_unix_secs));
    retain_window_keys(notified, &prefix, &key);
    assert(forall|k: Seq<char>| #[trigger] holds_key(notified@, k) ==> kept_key(k, prefix@, key@));
    let remaining = section.remaining_percent;
    if remaining > threshold {
        return;
    }
    if holds_string(notified, &key) {
        return;
    }
    let ghost prev = notified@;
    let ghost kv = key@;
    assert(!holds_key(prev, kv));
    let mut pos: usize = 0;
    while pos < notified.len() && str_less(notified[pos].as_str(), key.as_str())
        invariant
            pos <= notified@.len(),
            notified@ == prev,
            key@ == kv,
            forall|j: int| 0 <= j < pos ==> lex_lt((#[trigger] prev[j])@, kv),
        decreases notified.len() - pos,
    {
        pos = pos + 1;
    }
    notified.insert(pos, key);
    proof {
        let p = pos as int;
        prev.insert_ensures(p, notified@[p]);
        assert(notified@[p]@ == kv);
        assert forall|w: int| 0 <= w < notified@.len() implies (#[trigger] notified@[w]) == if w < p {
            prev[w]
        } else if w == p {
            notified@[p]
        } else {
            prev[w - 1]
        } by {
            if w > p {
                assert(notified@[(w - 1) + 1] == prev[w - 1]);
            }
        }
        assert forall|a: int, b: int| 0 <= a < b < notified@.len() implies (#[trigger] notified@[a])@ != (#[trigger] notified@[b])@ by {
            if a == p {
                assert(notified@[b] == prev[b - 1]);
            } else if b == p {
                assert(notified@[a] == prev[a]);
            } else {
                let a0 = if a < p { a } else { a - 1 };
                let b0 = if b < p { b } else { b - 1 };
                assert(notified@[a] == prev[a0]);
                assert(notified@[b] == prev[b0]);
            }
        }
        if strictly_sorted(prev) {
            if p < prev.len() {
                lemma_lex_lt_total(prev[p]@, kv);
                assert(prev[p]@ != kv);
            }
            assert forall|a: int, b: int| 0 <= a < b < notified@.len() implies lex_lt(
                (#[trigger] notified@[a])@,
                (#[trigger] notified@[b])@,
            ) by {
                if b == p {
                    assert(notified@[a] == prev[a]);
                } else if a == p {
                    assert(notified@[b] == prev[b - 1]);
                    if b - 1 > p {
                        lemma_lex_lt_transitive(kv, prev[p]@, prev[b - 1]@);
                    }
                } else {
                    let a0 = if a < p { a } else { a - 1 };
                    let b0 = if b < p { b } else { b - 1 };
                    assert(notified@[a] == prev[a0]);
                    assert(notified@[b] == prev[b0]);
                }
            }
        }
        assert forall|k: Seq<char>| holds_key(notified@, k) <==> (holds_key(prev, k) || k == kv) by {
            if holds_key(notified@, k) {
                let w = choose|w: int| 0 <= w < notified@.len() && (#[trigger] notified@[w])@ == k;
                if w < p {
                    assert(notified@[w] == prev[w]);
                } else if w > p {
                    assert(notified@[w] == prev[w - 1]);
                }
            }
            if holds_key(prev, k) {
                let w = choose|w: int| 0 <= w < prev.len() && (#[trigger] prev[w])@ == k;
                if w < p {
                    assert(notified@[w] == prev[w]);
                } else {
                    assert(notified@[w + 1] == prev[w]);
                }
            }
        }
        assert forall|k: Seq<char>| #[trigger] holds_key(notified@, k) implies kept_key(k, prefix@, kv) by {
            if holds_key(prev, k) {
                assert(kept_key(k, prefix@, kv));
            }
        }
    }
    let title = alert_title_string(language, provider_label);
    let message = alert_message_string(language, window_label, remaining, section.reset_local);
    alerts.push(QuotaAlert { kind, title, message });
    assert(alerts@.take(old(alerts)@.len() as int) =~= old(alerts)@);
}

/// Every key of a window starts with the window's prefix.
pub proof fn lemma_key_has_window_prefix(provider_key: Seq<char>, window_key: Seq<char>, reset: Option<u64>)
    ensures
        window_prefix(provider_key, window_key).is_prefix_of(alert_key(provider_key, window_key, reset)),
{
    let p = window_prefix(provider_key, window_key);
    assert(p =~= alert_key(provider_key, window_key, reset).subrange(0, p.len() as int));
}

/// Two resets of one window have the same key only if they are the same
/// reset.
pub proof fn lemma_key_names_reset(
    provider_key: Seq<char>,
    window_key: Seq<char>,
    first: Option<u64>,
    second: Option<u64>,
)
    requires
        alert_key(provider_key, window_key, first) == alert_key(provider_key, window_key, second),
    ensures
        first == second,
{
    let p = window_prefix(provider_key, window_key);
    let a = alert_key(provider_key, window_key, first);
    assert(reset_key_text(first) =~= a.subrange(p.len() as int, a.len() as int));
    assert(reset_key_text(second) =~= a.subrange(p.len() as int, a.len() as int));
    reveal_strlit("unknown");
    match (first, second) {
        (Some(x), Some(y)) => {
            lemma_decimal_injective(x as nat, y as nat);
        },
        (Some(x), None) => {
            lemma_decimal_digits(x as nat);
            assert(reset_key_text(first)[0] == 'u');
        },
        (None, Some(y)) => {
            lemma_decimal_digits(y as nat);
            assert(reset_key_text(second)[0] == 'u');
        },
        (None, None) => {},
    }
}

/// A second check of a window within the same reset raises no notification:
/// whatever the first check found, the reset is then recorded or the window
/// was not low.
pub proof fn lemma_repeated_check_is_silent(
    before: Seq<String>,
    after: Seq<String>,
    provider_key: Seq<char>,
    window_key: Seq<char>,
    reset: Option<u64>,
    low: bool,
)
    requires
        notified_after(
            before,
            after,
            window_prefix(provider_key, window_key),
            alert_key(provider_key, window_key, reset),
            low,
        ),
    ensures
        !alert_due(after, alert_key(provider_key, window_key, reset), low),
{
    let key = alert_key(provider_key, window_key, reset);
    if low {
        assert(holds_key(after, key));
    }
}

/// Once the reset of a window changes, a low window is notified again: the
/// key of the earlier reset does not hold back the new one.
pub proof fn lemma_new_reset_alerts_again(
    before: Seq<String>,
    after: Seq<String>,
    provider_key: Seq<char>,
    window_key: Seq<char>,
    first: Option<u64>,
    first_low: bool,
    second: Option<u64>,
    second_low: bool,
)
    requires
        notified_after(
            before,
            after,
            window_prefix(provider_key, window_key),
            alert_key(provider_key, window_key, first),
            first_low,
        ),
        first != second,
    ensures
        alert_due(after, alert_key(provider_key, window_key, second), second_low) == second_low,
{
    let key2 = alert_key(provider_key, window_key, second);
    lemma_key_has_window_prefix(provider_key, window_key, second);
    if key2 == alert_key(provider_key, window_key, first) {
        lemma_key_names_reset(provider_key, window_key, first, second);
    }
    assert(!holds_key(after, key2));
}

/// Whether `k` is held after a check of a window, given whether it was held
/// before.
pub open spec fn held_after(held: bool, k: Seq<char>, prefix: Seq<char>, key: Seq<char>, low: bool) -> bool {
    (held && kept_key(k, prefix, key)) || (low && k == key)
}

/// Whether `alert` is the notification of `section` in the window labelled
/// `window_label`.
pub open spec fn is_alert_of(
    alert: QuotaAlert,
    kind: TrayIconKind,
    language: LanguageId,
    provider_label: Seq<char>,
    window_label: Seq<char>,
    section: UsageSnapshot,
) -> bool {
    &&& alert.kind == kind
    &&& alert.title@ == alert_title(language, provider_label)
    &&& alert.message@ == alert_message(
        language,
        window_label,
        section.remaining_percent,
        section.reset_local,
    )
}

/// What a check of both windows of a provider does: the notified keys after
/// the session check and then the weekly check, and one notification for each
/// window that was due, session first.
pub open spec fn provider_checked(
    notified_before: Seq<String>,
    notified_after: Seq<String>,
    alerts_before: Seq<QuotaAlert>,
    alerts_after: Seq<QuotaAlert>,
    threshold: u8,
    language: LanguageId,
    kind: TrayIconKind,
    provider_key: Seq<char>,
    provider_label: Seq<char>,
    usage: ProviderUsage,
    session_label: Seq<char>,
    weekly_label: Seq<char>,
) -> bool {
    let p1 = window_prefix(provider_key, "session"@);
    let k1 = alert_key(provider_key, "session"@, usage.session.reset_unix_secs);
    let l1 = is_low(usage.session.remaining_percent, threshold);
    let p2 = window_prefix(provider_key, "weekly"@);
    let k2 = alert_key(provider_key, "weekly"@, usage.weekly.reset_unix_secs);
    let l2 = is_low(usage.weekly.remaining_percent, threshold);
    let due1 = alert_due(notified_before, k1, l1);
    let due2 = l2 && !held_after(holds_key(notified_before, k2), k2, p1, k1, l1);
    let n = alerts_before.len();
    &&& forall|k: Seq<char>|
        holds_key(notified_after, k) <==> held_after(
            held_after(holds_key(notified_before, k), k, p1, k1, l1),
            k,
            p2,
            k2,
            l2,
        )
    &&& alerts_after.len() == n + (if due1 { 1int } else { 0 }) + (if due2 { 1int } else { 0 })
    &&& alerts_after.take(n as int) == alerts_before
    &&& due1 ==> is_alert_of(alerts_after[n as int], kind, language, provider_label, session_label, usage.session)
    &&& due2 ==> is_alert_of(alerts_after.last(), kind, language, provider_label, weekly_label, usage.weekly)
}

/// Checks the session window, then the weekly window, of one provider.
#[verifier::spinoff_prover]
pub fn append_provider_alerts(
    alerts: &mut Vec<QuotaAlert>,
    notified: &mut Vec<String>,
    threshold: u8,
    language: LanguageId,
    kind: TrayIconKind,
    provider_key: &str,
    provider_label: &str,
    usage: &ProviderUsage,
    session_label: &str,
    weekly_label: &str,
)
    requires
        distinct_keys(old(notified)@),
    ensures
        distinct_keys(final(notified)@),
        strictly_sorted(old(notified)@) ==> strictly_sorted(final(notified)@),
        provider_checked(
            old(notified)@,
            final(notified)@,
            old(alerts)@,
            final(alerts)@,
            threshold,
            language,
            kind,
            provider_key@,
            provider_label@,
            *usage,
            session_label@,
            weekly_label@,
        ),
{
    let ghost before = notified@;
    let ghost alerts0 = alerts@;
    append_quota_alert(
        alerts,
        notified,
        threshold,
        language,
        kind,
        provider_key,
        provider_label,
        "session",
        session_label,
        &usage.session,
    );
    let ghost mid = notified@;
    let ghost alerts1 = alerts@;
    append_quota_alert(
        alerts,
        notified,
        threshold,
        language,
        kind,
        provider_key,
        provider_label,
        "weekly",
        weekly_label,
        &usage.weekly,
    );
    let ghost k2 = alert_key(provider_key@, "weekly"@, usage.weekly.reset_unix_secs);
    assert(holds_key(mid, k2) == held_after(
        holds_key(before, k2),
        k2,
        window_prefix(provider_key@, "session"@),
        alert_key(provider_key@, "session"@, usage.session.reset_unix_secs),
        is_low(usage.session.remaining_percent, threshold),
    ));
    assert(alerts@.take(alerts0.len() as int) =~= alerts0) by {
        if alerts1.len() > alerts0.len() {
            assert(alerts1.take(alerts0.len() as int) == alerts0);
        }
        if alerts@.len() > alerts1.len() {
            assert(alerts@.take(alerts1.len() as int) == alerts1);
        }
    }
    proof {
        if alerts1.len() > alerts0.len() && alerts@.len() > alerts1.len() {
            assert(alerts@[alerts0.len() as int] == alerts1[alerts0.len() as int]);
        }
    }
}

/// The notifications of a poll: none while alerts are off (threshold zero),
/// else those of the Codex windows when usage is known.
pub fn collect_low_quota_alerts(
    notified: &mut Vec<String>,
    threshold: u8,
    language: LanguageId,
    codex: Option<ProviderUsage>,
    provider_label: &str,
    session_label: &str,
    weekly_label: &str,
) -> (alerts: Vec<QuotaAlert>)
    requires
        distinct_keys(old(notified)@),
    ensures
        distinct_keys(final(notified)@),
        strictly_sorted(old(notified)@) ==> strictly_sorted(final(notified)@),
        threshold == 0 || codex is None ==> alerts@.len() == 0 && final(notified)@ == old(notified)@,
        threshold != 0 && codex is Some ==> provider_checked(
            old(notified)@,
            final(notified)@,
            Seq::empty(),
            alerts@,
            threshold,
            language,
            TrayIconKind::Codex,
            "codex"@,
            provider_label@,
            codex.unwrap(),
            session_label@,
            weekly_label@,
        ),
{
    let mut alerts: Vec<QuotaAlert> = Vec::new();
    if threshold == 0 {
        return alerts;
    }
    match codex {
        Some(usage) => {
            append_provider_alerts(
                &mut alerts,
                notified,
                threshold,
                language,
                TrayIconKind::Codex,
                "codex",
                provider_label,
                &usage,
                session_label,
                weekly_label,
            );
        },
        None => {},
    }
    alerts
}

/// The messages of `alerts`, one per line.
pub open spec fn joined_messages(alerts: Seq<QuotaAlert>) -> Seq<char>
    decreases alerts.len(),
{
    if alerts.len() == 0 {
        Seq::empty()
    } else if alerts.len() == 1 {
        alerts[0].message@
    } else {
        joined_messages(alerts.drop_last()) + seq!['\n'] + alerts.last().message@
    }
}

/// The single notification shown for a batch of alerts: the icon and title of
/// the first, and every message, one per line. `None` when there is nothing
/// to show.
pub fn notification_of(alerts: &Vec<QuotaAlert>) -> (n: Option<(TrayIconKind, String, String)>)
    ensures
        alerts@.len() == 0 ==> n is None,
        alerts@.len() > 0 ==> n is Some && n.unwrap().0 == alerts@[0].kind && n.unwrap().1@
            == alerts@[0].title@ && n.unwrap().2@ == joined_messages(alerts@),
{
    if alerts.len() == 0 {
        return None;
    }
    let mut message = alerts[0].message.clone();
    let mut i: usize = 1;
    while i < alerts.len()
        invariant
            1 <= i <= alerts.len(),
            message@ == joined_messages(alerts@.take(i as int)),
        decreases alerts.len() - i,
    {
        push_char(&mut message, '\n');
        push_str(&mut message, alerts[i].message.as_str());
        assert(alerts@.take(i + 1).drop_last() == alerts@.take(i as int));
        i = i + 1;
    }
    assert(alerts@.take(alerts.len() as int) == alerts@);
    Some((alerts[0].kind, alerts[0].title.clone(), message))
}

} // verus!
