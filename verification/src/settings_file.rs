use vstd::prelude::*;

use crate::alerts::{distinct_keys, holds_key};
use crate::appearance::AppearancePreset;
use crate::style::{
    colors_readable, lemma_settings_normalize_idempotent, normalized_style, preset_style, StyleSettings,
    ThemeMode, ThemePreset, StyleView,
};
use crate::text::chars_of;

verus! {

/// Polling every minute, in milliseconds.
pub const POLL_1_MIN: u32 = 60_000;

/// Polling every five minutes, in milliseconds.
pub const POLL_5_MIN: u32 = 300_000;

/// Polling every quarter of an hour, in milliseconds (the default).
pub const POLL_15_MIN: u32 = 900_000;

/// Polling every hour, in milliseconds.
pub const POLL_1_HOUR: u32 = 3_600_000;

/// `a` comes strictly before `b` in the order of their characters' code
/// points, a shorter text before every longer text it begins.
pub open spec fn lex_lt(a: Seq<char>, b: Seq<char>) -> bool
    decreases a.len(),
{
    if a.len() == 0 {
        b.len() > 0
    } else if b.len() == 0 {
        false
    } else if a[0] != b[0] {
        (a[0] as int) < (b[0] as int)
    } else {
        lex_lt(a.drop_first(), b.drop_first())
    }
}

/// No text comes before itself.
pub proof fn lemma_lex_lt_irreflexive(a: Seq<char>)
    ensures
        !lex_lt(a, a),
    decreases a.len(),
{
    if a.len() > 0 {
        lemma_lex_lt_irreflexive(a.drop_first());
    }
}

/// Of two different texts, one comes before the other, and never both.
pub proof fn lemma_lex_lt_total(a: Seq<char>, b: Seq<char>)
    ensures
        a != b ==> (lex_lt(a, b) || lex_lt(b, a)),
        !(lex_lt(a, b) && lex_lt(b, a)),
    decreases a.len(),
{
    if a.len() > 0 && b.len() > 0 {
        if a[0] == b[0] {
            lemma_lex_lt_total(a.drop_first(), b.drop_first());
            assert(a =~= seq![a[0]] + a.drop_first());
            assert(b =~= seq![b[0]] + b.drop_first());
        }
    } else if a.len() == 0 && b.len() == 0 {
        assert(a =~= b);
    }
}

/// The order of texts is transitive.
pub proof fn lemma_lex_lt_transitive(a: Seq<char>, b: Seq<char>, c: Seq<char>)
    requires
        lex_lt(a, b),
        lex_lt(b, c),
    ensures
        lex_lt(a, c),
    decreases a.len(),
{
    if a.len() > 0 && b.len() > 0 && c.len() > 0 && a[0] == b[0] && b[0] == c[0] {
        lemma_lex_lt_transitive(a.drop_first(), b.drop_first(), c.drop_first());
    }
}

/// Comparing texts after a common start is comparing what follows it.
proof fn lemma_lex_lt_skip(a: Seq<char>, b: Seq<char>, i: int)
    requires
        0 <= i <= a.len(),
        i <= b.len(),
        a.take(i) == b.take(i),
    ensures
        lex_lt(a, b) == lex_lt(a.skip(i), b.skip(i)),
    decreases i,
{
    if i > 0 {
        assert(a[0] == a.take(i)[0]);
        assert(b[0] == b.take(i)[0]);
        assert(a.drop_first().take(i - 1) =~= a.take(i).drop_first());
        assert(b.drop_first().take(i - 1) =~= b.take(i).drop_first());
        lemma_lex_lt_skip(a.drop_first(), b.drop_first(), i - 1);
        assert(a.drop_first().skip(i - 1) =~= a.skip(i));
        assert(b.drop_first().skip(i - 1) =~= b.skip(i));
    } else {
        assert(a.skip(0) =~= a);
        assert(b.skip(0) =~= b);
    }
}

/// Whether `a` comes strictly before `b` (std's order of strings, which
/// compares their UTF-8 bytes and so their code points).
#[verifier::spinoff_prover]
pub fn str_less(a: &str, b: &str) -> (lt: bool)
    ensures
        lt == lex_lt(a@, b@),
{
    let x = chars_of(a);
    let y = chars_of(b);
    let mut i: usize = 0;
    while i < x.len() && i < y.len()
        invariant
            x@ == a@,
            y@ == b@,
            i <= x.len(),
            i <= y.len(),
            x@.take(i as int) == y@.take(i as int),
        decreases x.len() - i,
    {
        if x[i] != y[i] {
            proof {
                lemma_lex_lt_skip(x@, y@, i as int);
                assert(x@.skip(i as int)[0] == x@[i as int]);
                assert(y@.skip(i as int)[0] == y@[i as int]);
            }
            return x[i] < y[i];
        }
        assert(x@.take(i + 1) =~= x@.take(i as int).push(x@[i as int]));
        assert(y@.take(i + 1) =~= y@.take(i as int).push(y@[i as int]));
        i = i + 1;
    }
    proof {
        lemma_lex_lt_skip(x@, y@, i as int);
    }
    i < y.len()
}

/// The entries of `v` are in strictly increasing order.
pub open spec fn strictly_sorted(v: Seq<String>) -> bool {
    forall|i: int, j: int| 0 <= i < j < v.len() ==> lex_lt((#[trigger] v[i])@, (#[trigger] v[j])@)
}

/// Strictly sorted entries are distinct.
pub proof fn lemma_sorted_keys_distinct(v: Seq<String>)
    requires
        strictly_sorted(v),
    ensures
        distinct_keys(v),
{
    assert forall|i: int, j: int| 0 <= i < j < v.len() implies (#[trigger] v[i])@ != (#[trigger] v[j])@ by {
        lemma_lex_lt_irreflexive(v[i]@);
    }
}

/// The keys of `keys`, each once, in increasing order: what sorting and then
/// removing adjacent duplicates gives.
#[verifier::spinoff_prover]
pub fn sorted_unique_keys(keys: Vec<String>) -> (out: Vec<String>)
    ensures
        strictly_sorted(out@),
        forall|k: Seq<char>| holds_key(out@, k) <==> holds_key(keys@, k),
{
    let mut out: Vec<String> = Vec::new();
    let mut i: usize = 0;
    while i < keys.len()
        invariant
            i <= keys.len(),
            strictly_sorted(out@),
            forall|k: Seq<char>| holds_key(out@, k) <==> holds_key(keys@.take(i as int), k),
        decreases keys.len() - i,
    {
        let item = &keys[i];
        let ghost x = item@;
        let mut pos: usize = 0;
        while pos < out.len() && str_less(out[pos].as_str(), item.as_str())
            invariant
                pos <= out.len(),
                x == item@,
                strictly_sorted(out@),
                forall|k: Seq<char>| holds_key(out@, k) <==> holds_key(keys@.take(i as int), k),
                forall|j: int| 0 <= j < pos ==> lex_lt((#[trigger] out@[j])@, x),
            decreases out.len() - pos,
        {
            pos = pos + 1;
        }
        let ghost next = keys@.take(i + 1);
        assert(next == keys@.take(i as int).push(keys@[i as int]));
        assert forall|k: Seq<char>| holds_key(next, k) <==> (holds_key(keys@.take(i as int), k) || k == x) by {
            if holds_key(next, k) {
                let w = choose|w: int| 0 <= w < next.len() && (#[trigger] next[w])@ == k;
                if w < i {
                    assert(keys@.take(i as int)[w] == next[w]);
                }
            }
            if holds_key(keys@.take(i as int), k) {
                let w = choose|w: int| 0 <= w < i && (#[trigger] keys@.take(i as int)[w])@ == k;
                assert(next[w] == keys@.take(i as int)[w]);
            }
            if k == x {
                assert(next[i as int] == keys@[i as int]);
            }
        }
        let present = pos < out.len() && crate::text::str_eq(out[pos].as_str(), item.as_str());
        let ghost prev = out@;
        if !present {
            proof {
                if pos < prev.len() {
                    lemma_lex_lt_total(prev[pos as int]@, x);
                }
            }
            out.insert(pos, item.clone());
            assert forall|a: int, b: int| 0 <= a < b < out@.len() implies lex_lt((#[trigger] out@[a])@, (#[trigger] out@[b])@) by {
                if b < pos {
                    assert(out@[a] == prev[a]);
                    assert(out@[b] == prev[b]);
                } else if b == pos {
                    assert(out@[a] == prev[a]);
                } else if a == pos {
                    assert(out@[b] == prev[b - 1]);
                    if b - 1 > pos {
                        lemma_lex_lt_transitive(x, prev[pos as int]@, prev[b - 1]@);
                    }
                } else if a < pos {
                    assert(out@[a] == prev[a]);
                    assert(out@[b] == prev[b - 1]);
                } else {
                    assert(out@[a] == prev[a - 1]);
                    assert(out@[b] == prev[b - 1]);
                }
            }
            assert forall|k: Seq<char>| holds_key(out@, k) <==> (holds_key(prev, k) || k == x) by {
                if holds_key(out@, k) {
                    let w = choose|w: int| 0 <= w < out@.len() && (#[trigger] out@[w])@ == k;
                    if w < pos {
                        assert(out@[w] == prev[w]);
                    } else if w > pos {
                        assert(out@[w] == prev[w - 1]);
                    }
                }
                if holds_key(prev, k) {
                    let w = choose|w: int| 0 <= w < prev.len() && (#[trigger] prev[w])@ == k;
                    if w < pos {
                        assert(out@[w] == prev[w]);
                    } else {
                        assert(out@[w + 1] == prev[w]);
                    }
                }
                if k == x {
                    assert(out@[pos as int]@ == x);
                }
            }
        } else {
            assert(out@[pos as int]@ == x);
            assert(holds_key(out@, x));
        }
        assert forall|k: Seq<char>| holds_key(out@, k) <==> #[trigger] holds_key(next, k) by {
            assert(holds_key(prev, k) <==> holds_key(keys@.take(i as int), k));
            assert(holds_key(next, k) <==> (holds_key(keys@.take(i as int), k) || k == x));
            if present {
                assert(holds_key(out@, x));
                assert(holds_key(keys@.take(i as int), x));
            } else {
                assert(holds_key(out@, k) <==> (holds_key(prev, k) || k == x));
            }
        }
        i = i + 1;
    }
    assert(keys@.take(keys.len() as int) == keys@);
    out
}

/// The smallest key of a strictly sorted list is its first.
proof fn lemma_sorted_first_is_least(v: Seq<String>, k: Seq<char>)
    requires
        strictly_sorted(v),
        v.len() > 0,
        holds_key(v, k),
    ensures
        k == v[0]@ || lex_lt(v[0]@, k),
{
    let w = choose|w: int| 0 <= w < v.len() && (#[trigger] v[w])@ == k;
    if w > 0 {
        assert(lex_lt(v[0]@, v[w]@));
    }
}

/// Two strictly sorted lists of the same keys hold them in the same order.
pub proof fn lemma_sorted_keys_unique(a: Seq<String>, b: Seq<String>)
    requires
        strictly_sorted(a),
        strictly_sorted(b),
        forall|k: Seq<char>| holds_key(a, k) <==> holds_key(b, k),
    ensures
        a.len() == b.len(),
        forall|i: int| 0 <= i < a.len() ==> (#[trigger] a[i])@ == b[i]@,
    decreases a.len(),
{
    if a.len() == 0 {
        if b.len() > 0 {
            assert(holds_key(b, b[0]@));
        }
    } else if b.len() == 0 {
        assert(holds_key(a, a[0]@));
    } else {
        assert(holds_key(a, a[0]@));
        assert(holds_key(b, b[0]@));
        lemma_sorted_first_is_least(a, b[0]@);
        lemma_sorted_first_is_least(b, a[0]@);
        lemma_lex_lt_total(a[0]@, b[0]@);
        let a1 = a.drop_first();
        let b1 = b.drop_first();
        assert forall|i: int, j: int| 0 <= i < j < a1.len() implies lex_lt((#[trigger] a1[i])@, (#[trigger] a1[j])@) by {
            assert(a1[i] == a[i + 1] && a1[j] == a[j + 1]);
        }
        assert forall|i: int, j: int| 0 <= i < j < b1.len() implies lex_lt((#[trigger] b1[i])@, (#[trigger] b1[j])@) by {
            assert(b1[i] == b[i + 1] && b1[j] == b[j + 1]);
        }
        assert forall|k: Seq<char>| holds_key(a1, k) <==> holds_key(b1, k) by {
            if holds_key(a1, k) {
                let w = choose|w: int| 0 <= w < a1.len() && (#[trigger] a1[w])@ == k;
                assert(a[w + 1]@ == k);
                assert(holds_key(a, k));
                assert(lex_lt(a[0]@, a[w + 1]@));
                lemma_lex_lt_irreflexive(k);
                let u = choose|u: int| 0 <= u < b.len() && (#[trigger] b[u])@ == k;
                assert(u != 0);
                assert(b1[u - 1] == b[u]);
            }
            if holds_key(b1, k) {
                let w = choose|w: int| 0 <= w < b1.len() && (#[trigger] b1[w])@ == k;
                assert(b[w + 1]@ == k);
                assert(holds_key(b, k));
                assert(lex_lt(b[0]@, b[w + 1]@));
                lemma_lex_lt_irreflexive(k);
                let u = choose|u: int| 0 <= u < a.len() && (#[trigger] a[u])@ == k;
                assert(u != 0);
                assert(a1[u - 1] == a[u]);
            }
        }
        lemma_sorted_keys_unique(a1, b1);
        assert forall|i: int| 0 <= i < a.len() implies (#[trigger] a[i])@ == b[i]@ by {
            if i > 0 {
                assert(a1[i - 1] == a[i] && b1[i - 1] == b[i]);
            }
        }
    }
}

/// The alert thresholds that can be chosen: off, 10, 20 or 30 percent.
pub open spec fn valid_threshold(t: u8) -> bool {
    t == 0 || t == 10 || t == 20 || t == 30
}

/// The settings kept between runs.
#[derive(Clone, Debug)]
pub struct SettingsFile {
    pub tray_offset: i32,
    pub taskbar_index: usize,
    pub poll_interval_ms: u32,
    pub language: Option<String>,
    pub appearance_preset: AppearancePreset,
    pub theme_mode: ThemeMode,
    pub styles: StyleSettings,
    pub show_session_window: bool,
    pub show_weekly_window: bool,
    pub alert_threshold_percent: u8,
    pub notified_quota_windows: Vec<String>,
}

/// The settings as values: the language and the notified keys by their
/// characters, the styles by their views.
pub struct SettingsView {
    pub tray_offset: i32,
    pub taskbar_index: usize,
    pub poll_interval_ms: u32,
    pub language: Option<Seq<char>>,
    pub appearance_preset: AppearancePreset,
    pub theme_mode: ThemeMode,
    pub dark: StyleView,
    pub light: StyleView,
    pub show_session_window: bool,
    pub show_weekly_window: bool,
    pub alert_threshold_percent: u8,
    pub notified_quota_windows: Seq<Seq<char>>,
}

impl View for SettingsFile {
    type V = SettingsView;

    open spec fn view(&self) -> SettingsView {
        SettingsView {
            tray_offset: self.tray_offset,
            taskbar_index: self.taskbar_index,
            poll_interval_ms: self.poll_interval_ms,
            language: match self.language {
                Some(l) => Some(l@),
                None => None,
            },
            appearance_preset: self.appearance_preset,
            theme_mode: self.theme_mode,
            dark: self.styles.dark@,
            light: self.styles.light@,
            show_session_window: self.show_session_window,
            show_weekly_window: self.show_weekly_window,
            alert_threshold_percent: self.alert_threshold_percent,
            notified_quota_windows: self.notified_quota_windows@.map_values(|k: String| k@),
        }
    }
}

impl SettingsFile {
    /// The settings of a fresh installation: no offset, the first taskbar,
    /// polling every quarter of an hour, the system language and theme, the
    /// compact layout, default styles, both windows shown and alerts off.
    pub fn default_settings() -> (s: Self)
        ensures
            s.tray_offset == 0,
            s.taskbar_index == 0,
            s.poll_interval_ms == POLL_15_MIN,
            s.language is None,
            s.appearance_preset == AppearancePreset::Compact,
            s.theme_mode == ThemeMode::System,
            s.styles.dark@ == preset_style(true, ThemePreset::Classic),
            s.styles.light@ == preset_style(false, ThemePreset::Classic),
            s.show_session_window,
            s.show_weekly_window,
            s.alert_threshold_percent == 0,
            s.notified_quota_windows@.len() == 0,
    {
        SettingsFile {
            tray_offset: 0,
            taskbar_index: 0,
            poll_interval_ms: POLL_15_MIN,
            language: None,
            appearance_preset: AppearancePreset::Compact,
            theme_mode: ThemeMode::System,
            styles: StyleSettings::default_settings(),
            show_session_window: true,
            show_weekly_window: true,
            alert_threshold_percent: 0,
            notified_quota_windows: Vec::new(),
        }
    }
}

impl Default for SettingsFile {
    fn default() -> (s: Self)
        ensures
            s.tray_offset == 0,
            s.taskbar_index == 0,
            s.poll_interval_ms == POLL_15_MIN,
            s.language is None,
            s.appearance_preset == AppearancePreset::Compact,
            s.theme_mode == ThemeMode::System,
            s.styles.dark@ == preset_style(true, ThemePreset::Classic),
            s.styles.light@ == preset_style(false, ThemePreset::Classic),
            s.show_session_window,
            s.show_weekly_window,
            s.alert_threshold_percent == 0,
            s.notified_quota_windows@.len() == 0,
    {
        SettingsFile::default_settings()
    }
}

/// What normalising `before` into `after` means: at least one usage window
/// shown (the session window when neither was), an unknown alert threshold
/// turned off, the notified keys sorted with duplicates removed, each theme
/// style normalised against its defaults, and the rest unchanged.
pub open spec fn normalized_from(before: SettingsFile, after: SettingsFile) -> bool {
    &&& after.tray_offset == before.tray_offset
    &&& after.taskbar_index == before.taskbar_index
    &&& after.poll_interval_ms == before.poll_interval_ms
    &&& after@.language == before@.language
    &&& after.appearance_preset == before.appearance_preset
    &&& after.theme_mode == before.theme_mode
    &&& after.show_session_window == (before.show_session_window || !before.show_weekly_window)
    &&& after.show_weekly_window == before.show_weekly_window
    &&& after.alert_threshold_percent == if valid_threshold(before.alert_threshold_percent) {
        before.alert_threshold_percent
    } else {
        0
    }
    &&& strictly_sorted(after.notified_quota_windows@)
    &&& forall|k: Seq<char>|
        holds_key(after.notified_quota_windows@, k) <==> holds_key(before.notified_quota_windows@, k)
    &&& after.styles.dark@ == normalized_style(before.styles.dark@, preset_style(true, ThemePreset::Classic))
    &&& after.styles.light@ == normalized_style(before.styles.light@, preset_style(false, ThemePreset::Classic))
}

/// Brings loaded settings into their normal form.
pub fn normalize_settings(settings: SettingsFile) -> (out: SettingsFile)
    requires
        colors_readable(settings.styles.dark@),
        colors_readable(settings.styles.light@),
    ensures
        normalized_from(settings, out),
        out.show_session_window || out.show_weekly_window,
        valid_threshold(out.alert_threshold_percent),
{
    let mut settings = settings;
    if !settings.show_session_window && !settings.show_weekly_window {
        settings.show_session_window = true;
    }
    let t = settings.alert_threshold_percent;
    if !(t == 0 || t == 10 || t == 20 || t == 30) {
        settings.alert_threshold_percent = 0;
    }
    let mut keys: Vec<String> = Vec::new();
    std::mem::swap(&mut keys, &mut settings.notified_quota_windows);
    settings.notified_quota_windows = sorted_unique_keys(keys);
    settings.styles.normalize();
    settings
}

/// Law: normalised settings are left as they are by a second normalisation,
/// which also needs nothing of them.
pub proof fn lemma_normalize_settings_idempotent(a: SettingsFile, b: SettingsFile, c: SettingsFile)
    requires
        normalized_from(a, b),
        normalized_from(b, c),
    ensures
        c@ == b@,
        colors_readable(b.styles.dark@),
        colors_readable(b.styles.light@),
{
    lemma_settings_normalize_idempotent(a.styles.dark@, a.styles.light@);
    lemma_sorted_keys_unique(c.notified_quota_windows@, b.notified_quota_windows@);
    assert(c@.notified_quota_windows =~= b@.notified_quota_windows);
}

} // verus!
