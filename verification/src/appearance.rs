use vstd::prelude::*;

use crate::language::LanguageId;
use crate::text::{
    chars_of, decimal, decimal_padded, lemma_decimal_digits, push_char, push_decimal, push_decimal_padded,
    push_str, str_eq, string_from_chars,
};

verus! {

/// Layout of the taskbar widget.
#[derive(Clone, Copy, Debug, PartialEq, Eq, Structural)]
pub enum AppearancePreset {
    Compact,
    Minimal,
}

impl Default for AppearancePreset {
    fn default() -> (p: Self)
        ensures
            p == AppearancePreset::Compact,
    {
        AppearancePreset::Compact
    }
}

/// Pixel sizes (at 96 DPI) and switches of a widget layout.
#[derive(Clone, Copy, Debug, PartialEq, Eq, Structural)]
pub struct StyleMetrics {
    pub widget_height: i32,
    pub panel_radius: i32,
    pub outer_padding: i32,
    pub label_bar_gap: i32,
    pub bar_percent_gap: i32,
    pub percent_width: i32,
    pub percent_reset_gap: i32,
    pub reset_width: i32,
    pub bar_width: i32,
    pub bar_value_width: i32,
    pub bar_value_gap: i32,
    pub bar_height: i32,
    pub label_width: i32,
    pub label_right_margin: i32,
    pub bar_right_margin: i32,
    pub text_width: i32,
    pub secondary_width: i32,
    pub row_gap: i32,
    pub font_height: i32,
    pub value_font_height: i32,
    pub secondary_font_height: i32,
    pub divider_right_margin: i32,
    pub model_right_margin: i32,
    pub hide_reset_time: bool,
}

/// The metrics of each layout.
pub open spec fn preset_metrics(p: AppearancePreset) -> StyleMetrics {
    match p {
        AppearancePreset::Compact => StyleMetrics {
            widget_height: 42,
            panel_radius: 0,
            outer_padding: 6,
            label_bar_gap: 6,
            bar_percent_gap: 4,
            percent_width: 36,
            percent_reset_gap: 3,
            reset_width: 34,
            bar_width: 82,
            bar_value_width: 34,
            bar_value_gap: 2,
            bar_height: 8,
            label_width: 18,
            label_right_margin: 6,
            bar_right_margin: 6,
            text_width: 34,
            secondary_width: 34,
            row_gap: 7,
            font_height: -11i32,
            value_font_height: -12i32,
            secondary_font_height: -11i32,
            divider_right_margin: 7,
            model_right_margin: 4,
            hide_reset_time: false,
        },
        AppearancePreset::Minimal => StyleMetrics {
            widget_height: 40,
            panel_radius: 0,
            outer_padding: 6,
            label_bar_gap: 6,
            bar_percent_gap: 4,
            percent_width: 36,
            percent_reset_gap: 3,
            reset_width: 0,
            bar_width: 62,
            bar_value_width: 34,
            bar_value_gap: 2,
            bar_height: 7,
            label_width: 18,
            label_right_margin: 5,
            bar_right_margin: 5,
            text_width: 0,
            secondary_width: 0,
            row_gap: 7,
            font_height: -11i32,
            value_font_height: -12i32,
            secondary_font_height: -11i32,
            divider_right_margin: 6,
            model_right_margin: 3,
            hide_reset_time: true,
        },
    }
}

/// The settings name of a layout.
pub open spec fn preset_name(p: AppearancePreset) -> Seq<char> {
    match p {
        AppearancePreset::Compact => "compact"@,
        AppearancePreset::Minimal => "minimal"@,
    }
}

/// The layout that a settings name stands for; the earlier name "default"
/// stands for the compact layout.
pub open spec fn preset_for_name(name: Seq<char>) -> Option<AppearancePreset> {
    if name == "compact"@ || name == "default"@ {
        Some(AppearancePreset::Compact)
    } else if name == "minimal"@ {
        Some(AppearancePreset::Minimal)
    } else {
        None
    }
}

impl AppearancePreset {
    /// The layout's metrics.
    pub fn metrics(self) -> (m: StyleMetrics)
        ensures
            m == preset_metrics(self),
    {
        match self {
            Self::Compact => StyleMetrics {
                widget_height: 42,
                panel_radius: 0,
                outer_padding: 6,
                label_bar_gap: 6,
                bar_percent_gap: 4,
                percent_width: 36,
                percent_reset_gap: 3,
                reset_width: 34,
                bar_width: 82,
                bar_value_width: 34,
                bar_value_gap: 2,
                bar_height: 8,
                label_width: 18,
                label_right_margin: 6,
                bar_right_margin: 6,
                text_width: 34,
                secondary_width: 34,
                row_gap: 7,
                font_height: -11,
                value_font_height: -12,
                secondary_font_height: -11,
                divider_right_margin: 7,
                model_right_margin: 4,
                hide_reset_time: false,
            },
            Self::Minimal => StyleMetrics {
                widget_height: 40,
                panel_radius: 0,
                outer_padding: 6,
                label_bar_gap: 6,
                bar_percent_gap: 4,
                percent_width: 36,
                percent_reset_gap: 3,
                reset_width: 0,
                bar_width: 62,
                bar_value_width: 34,
                bar_value_gap: 2,
                bar_height: 7,
                label_width: 18,
                label_right_margin: 5,
                bar_right_margin: 5,
                text_width: 0,
                secondary_width: 0,
                row_gap: 7,
                font_height: -11,
                value_font_height: -12,
                secondary_font_height: -11,
                divider_right_margin: 6,
                model_right_margin: 3,
                hide_reset_time: true,
            },
        }
    }

    /// The name under which the layout is saved.
    pub fn setting_name(self) -> (n: &'static str)
        ensures
            n@ == preset_name(self),
    {
        match self {
            Self::Compact => "compact",
            Self::Minimal => "minimal",
        }
    }

    /// The layout that a saved name stands for ("compact" or the earlier
    /// "default", or "minimal").
    pub fn from_setting_name(name: &str) -> (p: Option<Self>)
        ensures
            p == preset_for_name(name@),
    {
        if str_eq(name, "compact") || str_eq(name, "default") {
            Some(Self::Compact)
        } else if str_eq(name, "minimal") {
            Some(Self::Minimal)
        } else {
            None
        }
    }
}

/// Which usage window a value belongs to.
#[derive(Clone, Copy, Debug, PartialEq, Eq, Structural)]
pub enum UsageWindowKind {
    /// The five-hour window.
    Session,
    /// The seven-day window.
    Weekly,
}

/// A local calendar time, as the system reports it.
#[derive(Clone, Copy, Debug, PartialEq, Eq, Structural)]
pub struct LocalTime {
    pub year: u16,
    pub month: u16,
    pub day: u16,
    pub hour: u16,
    pub minute: u16,
}

/// The text of the remaining percentage: its decimal digits and `%`.
pub open spec fn percent_text(remaining: nat) -> Seq<char> {
    decimal(remaining).push('%')
}

/// The reset hint of a window: `HH:MM` for the five-hour window, `MM/DD` for
/// the weekly one.
pub open spec fn reset_hint_text(t: LocalTime, window: UsageWindowKind) -> Seq<char> {
    match window {
        UsageWindowKind::Session => decimal_padded(t.hour as nat, 2) + seq![':'] + decimal_padded(
            t.minute as nat,
            2,
        ),
        UsageWindowKind::Weekly => decimal_padded(t.month as nat, 2) + seq!['/'] + decimal_padded(
            t.day as nat,
            2,
        ),
    }
}

/// `YYYY-MM-DD HH:MM` text of a local time.
pub open spec fn local_time_text(t: LocalTime) -> Seq<char> {
    decimal_padded(t.year as nat, 4) + seq!['-'] + decimal_padded(t.month as nat, 2) + seq!['-']
        + decimal_padded(t.day as nat, 2) + seq![' '] + decimal_padded(t.hour as nat, 2) + seq![':']
        + decimal_padded(t.minute as nat, 2)
}

/// The texts shown for one usage window in the taskbar widget.
#[derive(Clone, Debug, PartialEq, Eq)]
pub struct TaskbarValueText {
    /// Remaining percentage, such as `19%`.
    pub primary: String,
    /// Reset hint, where the layout shows one and the reset time is known.
    pub secondary: Option<String>,
}

/// `HH:MM` or `MM/DD` text of a reset time.
pub fn reset_hint(reset: LocalTime, window: UsageWindowKind) -> (s: String)
    ensures
        s@ == reset_hint_text(reset, window),
{
    let mut s = String::new();
    match window {
        UsageWindowKind::Session => {
            push_decimal_padded(&mut s, reset.hour as u64, 2);
            push_char(&mut s, ':');
            push_decimal_padded(&mut s, reset.minute as u64, 2);
        },
        UsageWindowKind::Weekly => {
            push_decimal_padded(&mut s, reset.month as u64, 2);
            push_char(&mut s, '/');
            push_decimal_padded(&mut s, reset.day as u64, 2);
        },
    }
    s
}

/// The widget texts for a usage window: the remaining percentage (already
/// rounded to a whole number) and, unless the layout hides it, the local reset
/// time. The language does not change them.
pub fn taskbar_value_text(
    preset: AppearancePreset,
    language: LanguageId,
    remaining_percent: u64,
    reset: Option<LocalTime>,
    window: UsageWindowKind,
) -> (v: TaskbarValueText)
    ensures
        v.primary@ == percent_text(remaining_percent as nat),
        preset_metrics(preset).hide_reset_time ==> v.secondary is None,
        !preset_metrics(preset).hide_reset_time ==> match reset {
            Some(t) => v.secondary is Some && v.secondary.unwrap()@ == reset_hint_text(t, window),
            None => v.secondary is None,
        },
{
    let mut primary = String::new();
    push_decimal(&mut primary, remaining_percent);
    push_char(&mut primary, '%');
    let secondary = if preset.metrics().hide_reset_time {
        None
    } else {
        match reset {
            Some(t) => Some(reset_hint(t, window)),
            None => None,
        }
    };
    TaskbarValueText { primary, secondary }
}

/// The widget line of a usage window: the percentage, then two spaces and the
/// reset hint where there is one.
pub fn taskbar_line(
    preset: AppearancePreset,
    language: LanguageId,
    remaining_percent: u64,
    reset: Option<LocalTime>,
    window: UsageWindowKind,
) -> (line: String)
    ensures
        (!preset_metrics(preset).hide_reset_time && reset is Some) ==> line@ == percent_text(
            remaining_percent as nat,
        ) + "  "@ + reset_hint_text(reset.unwrap(), window),
        (preset_metrics(preset).hide_reset_time || reset is None) ==> line@ == percent_text(
            remaining_percent as nat,
        ),
{
    let value = taskbar_value_text(preset, language, remaining_percent, reset, window);
    match value.secondary {
        Some(hint) => {
            let mut line = value.primary;
            push_str(&mut line, "  ");
            push_str(&mut line, hint.as_str());
            line
        },
        None => value.primary,
    }
}

/// `YYYY-MM-DD HH:MM` text of a local time.
pub fn format_local_system_time(local: LocalTime) -> (s: String)
    ensures
        s@ == local_time_text(local),
{
    let mut s = String::new();
    push_decimal_padded(&mut s, local.year as u64, 4);
    push_char(&mut s, '-');
    push_decimal_padded(&mut s, local.month as u64, 2);
    push_char(&mut s, '-');
    push_decimal_padded(&mut s, local.day as u64, 2);
    push_char(&mut s, ' ');
    push_decimal_padded(&mut s, local.hour as u64, 2);
    push_char(&mut s, ':');
    push_decimal_padded(&mut s, local.minute as u64, 2);
    assert(s@ =~= local_time_text(local));
    s
}

/// The precise text of a reset time, where it is known.
pub fn format_precise_reset_time(local: Option<LocalTime>) -> (s: Option<String>)
    ensures
        match local {
            Some(t) => s is Some && s.unwrap()@ == local_time_text(t),
            None => s is None,
        },
{
    match local {
        Some(t) => Some(format_local_system_time(t)),
        None => None,
    }
}

/// The first place, from `i` on, where two spaces follow each other.
pub open spec fn first_gap_from(s: Seq<char>, i: int) -> Option<int>
    decreases s.len() - i,
{
    if i < 0 || i + 1 >= s.len() {
        None
    } else if s[i] == ' ' && s[i + 1] == ' ' {
        Some(i)
    } else {
        first_gap_from(s, i + 1)
    }
}

/// A widget line cut at its first double space into the value and the reset
/// hint; a line without one is all value.
pub open spec fn value_text_parts(s: Seq<char>) -> (Seq<char>, Option<Seq<char>>) {
    match first_gap_from(s, 0) {
        Some(i) => (s.take(i), Some(s.skip(i + 2))),
        None => (s, None),
    }
}

/// Splits a widget line into the value and, after the first double space,
/// the reset hint.
#[verifier::spinoff_prover]
pub fn split_value_text(text: &str) -> (parts: (String, Option<String>))
    ensures
        parts.0@ == value_text_parts(text@).0,
        match value_text_parts(text@).1 {
            Some(h) => parts.1 is Some && parts.1.unwrap()@ == h,
            None => parts.1 is None,
        },
{
    let chars = chars_of(text);
    let n = chars.len();
    let mut i: usize = 0;
    while i < n && n - i > 1
        invariant
            chars@ == text@,
            n == chars@.len(),
            i <= n,
            first_gap_from(text@, 0) == first_gap_from(text@, i as int),
        decreases n - i,
    {
        if chars[i] == ' ' && chars[i + 1] == ' ' {
            let mut head: Vec<char> = Vec::new();
            let mut k: usize = 0;
            while k < i
                invariant
                    k <= i,
                    i + 1 < n,
                    n == chars@.len(),
                    head@ == chars@.take(k as int),
                decreases i - k,
            {
                head.push(chars[k]);
                assert(chars@.take(k + 1) =~= chars@.take(k as int).push(chars@[k as int]));
                k = k + 1;
            }
            let mut tail: Vec<char> = Vec::new();
            let mut m: usize = i + 2;
            while m < n
                invariant
                    i + 2 <= m <= n,
                    n == chars@.len(),
                    tail@ == chars@.subrange(i + 2, m as int),
                decreases n - m,
            {
                tail.push(chars[m]);
                assert(chars@.subrange(i + 2, m + 1) =~= chars@.subrange(i + 2, m as int).push(
                    chars@[m as int],
                ));
                m = m + 1;
            }
            assert(tail@ =~= text@.skip(i + 2));
            return (string_from_chars(&head), Some(string_from_chars(&tail)));
        }
        i = i + 1;
    }
    (string_from_chars(&chars), None)
}

proof fn lemma_gap_after_percent(n: nat, hint: Seq<char>, k: int)
    requires
        0 <= k <= percent_text(n).len(),
    ensures
        first_gap_from(percent_text(n) + "  "@ + hint, k) == Some(percent_text(n).len() as int),
    decreases percent_text(n).len() - k,
{
    let p = percent_text(n);
    let s = p + "  "@ + hint;
    reveal_strlit("  ");
    lemma_decimal_digits(n);
    if k < p.len() {
        assert(s[k] == p[k]);
        if k < decimal(n).len() {
            assert(p[k] == decimal(n)[k]);
        }
        assert(s[k] != ' ');
        lemma_gap_after_percent(n, hint, k + 1);
    } else {
        assert(s[k] == ' ' && s[k + 1] == ' ');
    }
}

/// Law: cutting a widget line made of a percentage, two spaces and a reset
/// hint gives back the percentage and the hint.
pub proof fn lemma_value_text_splits_back(n: nat, hint: Seq<char>)
    ensures
        value_text_parts(percent_text(n) + "  "@ + hint) == (percent_text(n), Some(hint)),
{
    let p = percent_text(n);
    let s = p + "  "@ + hint;
    reveal_strlit("  ");
    lemma_gap_after_percent(n, hint, 0);
    assert(s.take(p.len() as int) =~= p);
    assert(s.skip(p.len() as int + 2) =~= hint);
}

} // verus!
