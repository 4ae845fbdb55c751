use vstd::prelude::*;

use crate::color::{
    all_ascii, hex_cut_panics, hex_rgba_text, hex_scan, hex_value, is_ascii_char, lemma_ascii_hex_never_panics,
    parse_color, Color,
};
use crate::language::{is_language_code, is_supported_language_code, language_code, LanguageId};
use crate::style::{StyleView, ThemeStyle};
use crate::text::{chars_of, decimal, push_char, push_decimal, push_str, str_eq, string_from_chars, to_string, trim, trim_bounds};

verus! {

/// Lexer state while blanking comments out of JSONC text.
#[derive(Clone, Copy, Debug, PartialEq, Eq, Structural)]
pub struct JsoncState {
    pub in_string: bool,
    pub escaped: bool,
    pub line_comment: bool,
    pub block_comment: bool,
}

/// The state at the start of a text: outside strings and comments.
pub open spec fn jsonc_start() -> JsoncState {
    JsoncState { in_string: false, escaped: false, line_comment: false, block_comment: false }
}

/// The character after position `i`, if any.
pub open spec fn char_after(c: Seq<char>, i: int) -> Option<char> {
    if i + 1 < c.len() {
        Some(c[i + 1])
    } else {
        None
    }
}

/// One step of the comment blanker at position `i` in state `st`: the text it
/// writes, how many characters it consumes, and the state after.
///
/// Inside a line comment every character but the newline becomes a space; a
/// block comment ends at `*/`, written as two spaces, and keeps its newlines;
/// string literals are copied as they are, with `\` escaping the next
/// character; outside of these `//` and `/*` open comments (written as two
/// spaces) and `"` opens a string.
pub open spec fn jsonc_step(c: Seq<char>, i: int, st: JsoncState) -> (Seq<char>, int, JsoncState) {
    let ch = c[i];
    let next = char_after(c, i);
    if st.line_comment {
        if ch == '\n' {
            (seq!['\n'], 1, JsoncState { line_comment: false, ..st })
        } else {
            (seq![' '], 1, st)
        }
    } else if st.block_comment {
        if ch == '*' && next == Some('/') {
            (seq![' ', ' '], 2, JsoncState { block_comment: false, ..st })
        } else {
            (seq![if ch == '\n' { '\n' } else { ' ' }], 1, st)
        }
    } else if st.in_string {
        if st.escaped {
            (seq![ch], 1, JsoncState { escaped: false, ..st })
        } else if ch == '\\' {
            (seq![ch], 1, JsoncState { escaped: true, ..st })
        } else if ch == '"' {
            (seq![ch], 1, JsoncState { in_string: false, ..st })
        } else {
            (seq![ch], 1, st)
        }
    } else if ch == '"' {
        (seq![ch], 1, JsoncState { in_string: true, ..st })
    } else if ch == '/' && next == Some('/') {
        (seq![' ', ' '], 2, JsoncState { line_comment: true, ..st })
    } else if ch == '/' && next == Some('*') {
        (seq![' ', ' '], 2, JsoncState { block_comment: true, ..st })
    } else {
        (seq![ch], 1, st)
    }
}

/// The blanked text of `c` from position `i` in state `st`, and the state at
/// the end.
pub open spec fn jsonc_blank_from(c: Seq<char>, i: int, st: JsoncState) -> (Seq<char>, JsoncState)
    decreases c.len() - i,
{
    if i < 0 || i >= c.len() {
        (seq![], st)
    } else {
        let (out, k, st2) = jsonc_step(c, i, st);
        let (rest, fin) = jsonc_blank_from(c, i + k, st2);
        (out + rest, fin)
    }
}

/// `text` with its comments blanked out, or the error for a block comment
/// that is never closed.
pub open spec fn strip_jsonc(text: Seq<char>) -> Result<Seq<char>, Seq<char>> {
    let (out, fin) = jsonc_blank_from(text, 0, jsonc_start());
    if fin.block_comment {
        Err("unterminated block comment"@)
    } else {
        Ok(out)
    }
}

proof fn lemma_blank_from_unfold(c: Seq<char>, i: int, st: JsoncState)
    requires
        0 <= i < c.len(),
    ensures
        jsonc_blank_from(c, i, st) == ({
            let (out, k, st2) = jsonc_step(c, i, st);
            let (rest, fin) = jsonc_blank_from(c, i + k, st2);
            (out + rest, fin)
        }),
{
}

/// Replaces every `//` and `/* */` comment of `text` outside string literals
/// by spaces, keeping newlines, so that positions in the text stay the same.
/// Fails on a block comment that is not closed.
#[verifier::rlimit(40)]
pub fn strip_jsonc_comments(text: &str) -> (r: Result<String, String>)
    ensures
        match strip_jsonc(text@) {
            Ok(out) => r is Ok && r.unwrap()@ == out,
            Err(e) => r is Err && r.unwrap_err()@ == e,
        },
{
    let chars = chars_of(text);
    let mut output = String::new();
    let mut i: usize = 0;
    let mut in_string = false;
    let mut escaped = false;
    let mut line_comment = false;
    let mut block_comment = false;
    let ghost c = chars@;

    while i < chars.len()
        invariant
            c == chars@,
            c == text@,
            i <= chars.len(),
            jsonc_blank_from(c, 0, jsonc_start()) == ({
                let (rest, fin) = jsonc_blank_from(
                    c,
                    i as int,
                    JsoncState { in_string, escaped, line_comment, block_comment },
                );
                (output@ + rest, fin)
            }),
        decreases chars.len() - i,
    {
        let ghost st = JsoncState { in_string, escaped, line_comment, block_comment };
        let ghost before = output@;
        let ghost i0 = i as int;
        proof {
            lemma_blank_from_unfold(c, i as int, st);
        }
        let ch = chars[i];
        let next: Option<char> = if i + 1 < chars.len() {
            Some(chars[i + 1])
        } else {
            None
        };
        assert(next == char_after(c, i as int));

        if line_comment {
            if ch == '\n' {
                line_comment = false;
                push_char(&mut output, '\n');
            } else {
                push_char(&mut output, ' ');
            }
            i += 1;
        } else if block_comment {
            if ch == '*' && next == Some('/') {
                push_char(&mut output, ' ');
                push_char(&mut output, ' ');
                i += 2;
                block_comment = false;
            } else {
                push_char(&mut output, if ch == '\n' { '\n' } else { ' ' });
                i += 1;
            }
        } else if in_string {
            push_char(&mut output, ch);
            if escaped {
                escaped = false;
            } else if ch == '\\' {
                escaped = true;
            } else if ch == '"' {
                in_string = false;
            }
            i += 1;
        } else if ch == '"' {
            in_string = true;
            push_char(&mut output, ch);
            i += 1;
        } else if ch == '/' && next == Some('/') {
            push_char(&mut output, ' ');
            push_char(&mut output, ' ');
            i += 2;
            line_comment = true;
        } else if ch == '/' && next == Some('*') {
            push_char(&mut output, ' ');
            push_char(&mut output, ' ');
            i += 2;
            block_comment = true;
        } else {
            push_char(&mut output, ch);
            i += 1;
        }
        proof {
            let (o, k, st2) = jsonc_step(c, i0, st);
            assert(i == i0 + k);
            assert(output@ == before + o);
            assert(st2 == JsoncState { in_string, escaped, line_comment, block_comment });
            let (rest, fin) = jsonc_blank_from(c, i as int, st2);
            assert(before + (o + rest) == (before + o) + rest);
        }
    }
    assert(jsonc_blank_from(c, i as int, JsoncState { in_string, escaped, line_comment, block_comment }) == (Seq::<char>::empty(), JsoncState { in_string, escaped, line_comment, block_comment }));
    assert(output@ + Seq::<char>::empty() == output@);
    if block_comment {
        return Err(to_string("unterminated block comment"));
    }
    Ok(output)
}


/// The blanked text has the shape of the input from `i` on: same length, each
/// character kept or turned into a space, and every newline kept.
pub open spec fn blank_shape(c: Seq<char>, i: int, out: Seq<char>) -> bool {
    &&& out.len() == c.len() - i
    &&& forall|k: int|
        0 <= k < out.len() ==> (#[trigger] out[k] == c[i + k] || out[k] == ' ') && (c[i + k]
            == '\n' ==> out[k] == '\n')
}

proof fn lemma_blank_from_shape(c: Seq<char>, i: int, st: JsoncState)
    requires
        0 <= i <= c.len(),
    ensures
        blank_shape(c, i, jsonc_blank_from(c, i, st).0),
    decreases c.len() - i,
{
    if i < c.len() {
        let (o, k, st2) = jsonc_step(c, i, st);
        assert(1 <= k <= 2 && i + k <= c.len() && o.len() == k);
        lemma_blank_from_shape(c, i + k, st2);
        let rest = jsonc_blank_from(c, i + k, st2).0;
        let out = o + rest;
        assert forall|j: int| 0 <= j < out.len() implies (#[trigger] out[j] == c[i + j] || out[j]
            == ' ') && (c[i + j] == '\n' ==> out[j] == '\n') by {
            if j >= k {
                assert(out[j] == rest[j - k]);
                assert(c[(i + k) + (j - k)] == c[i + j]);
            }
        }
    }
}

/// Law: blanking comments keeps the text's length and every newline, and
/// changes characters only into spaces.
pub proof fn lemma_strip_jsonc_shape(text: Seq<char>)
    ensures
        strip_jsonc(text) matches Ok(out) ==> blank_shape(text, 0, out),
{
    lemma_blank_from_shape(text, 0, jsonc_start());
}


/// Law: inside a string literal, characters other than a quote or a
/// backslash are copied unchanged, `//` and `/*` among them: the blanked text
/// from `i` is the stretch up to `j` followed by the blanked text from `j`.
pub proof fn lemma_string_contents_kept(c: Seq<char>, i: int, j: int, st: JsoncState)
    requires
        0 <= i <= j <= c.len(),
        st.in_string,
        !st.escaped,
        !st.line_comment,
        !st.block_comment,
        forall|k: int| i <= k < j ==> c[k] != '"' && c[k] != '\\',
    ensures
        jsonc_blank_from(c, i, st) == (c.subrange(i, j) + jsonc_blank_from(c, j, st).0, jsonc_blank_from(
            c,
            j,
            st,
        ).1),
    decreases j - i,
{
    if i < j {
        lemma_blank_from_unfold(c, i, st);
        lemma_string_contents_kept(c, i + 1, j, st);
        assert(seq![c[i]] + c.subrange(i + 1, j) =~= c.subrange(i, j));
    } else {
        assert(c.subrange(i, j) =~= Seq::<char>::empty());
    }
}

/// Law: text without a `/` has no comment, and blanking leaves it as it is.
pub proof fn lemma_strip_without_slash_is_identity(text: Seq<char>)
    requires
        forall|k: int| 0 <= k < text.len() ==> text[k] != '/',
    ensures
        strip_jsonc(text) == Ok::<Seq<char>, Seq<char>>(text),
{
    lemma_blank_without_slash(text, 0, jsonc_start());
    assert(text.subrange(0, text.len() as int) =~= text);
}

proof fn lemma_blank_without_slash(c: Seq<char>, i: int, st: JsoncState)
    requires
        0 <= i <= c.len(),
        !st.line_comment,
        !st.block_comment,
        forall|k: int| 0 <= k < c.len() ==> c[k] != '/',
    ensures
        jsonc_blank_from(c, i, st).0 == c.subrange(i, c.len() as int),
        !jsonc_blank_from(c, i, st).1.block_comment,
    decreases c.len() - i,
{
    if i < c.len() {
        lemma_blank_from_unfold(c, i, st);
        let (out, k, st2) = jsonc_step(c, i, st);
        assert(k == 1 && out == seq![c[i]]);
        lemma_blank_without_slash(c, i + 1, st2);
        assert(seq![c[i]] + c.subrange(i + 1, c.len() as int) =~= c.subrange(i, c.len() as int));
    } else {
        assert(c.subrange(i, c.len() as int) =~= Seq::<char>::empty());
    }
}

/// A lexer state that the blanker can reach: an escape only inside a string,
/// a comment only outside one, and never both kinds of comment.
pub open spec fn jsonc_valid(st: JsoncState) -> bool {
    &&& st.escaped ==> st.in_string
    &&& (st.line_comment || st.block_comment) ==> !st.in_string && !st.escaped
    &&& !(st.line_comment && st.block_comment)
}

/// The state that blanking the blanked text is in where blanking the
/// original was in `st`: where a comment was, the blanked text has only
/// spaces and newlines, read outside any comment.
pub open spec fn jsonc_shadow(st: JsoncState) -> JsoncState {
    if st.line_comment || st.block_comment {
        jsonc_start()
    } else {
        st
    }
}

proof fn lemma_reblank(c: Seq<char>, o: Seq<char>, i: int, st: JsoncState)
    requires
        0 <= i <= c.len(),
        o.len() == c.len(),
        jsonc_valid(st),
        o.subrange(i, c.len() as int) == jsonc_blank_from(c, i, st).0,
    ensures
        jsonc_blank_from(o, i, jsonc_shadow(st)).0 == o.subrange(i, o.len() as int),
        !jsonc_blank_from(o, i, jsonc_shadow(st)).1.block_comment,
    decreases c.len() - i,
{
    let n = c.len() as int;
    if i < n {
        lemma_blank_from_unfold(c, i, st);
        let (out, k, st2) = jsonc_step(c, i, st);
        let rest = jsonc_blank_from(c, i + k, st2).0;
        lemma_blank_from_shape(c, i + k, st2);
        assert(1 <= k <= 2 && i + k <= n && out.len() == k);
        assert(o.subrange(i, n) == out + rest);
        assert(o.subrange(i + k, n) =~= rest) by {
            assert forall|j: int| 0 <= j < rest.len() implies o.subrange(i + k, n)[j] == rest[j] by {
                assert(o.subrange(i, n)[j + k] == (out + rest)[j + k]);
            }
        }
        assert(o[i] == out[0]) by {
            assert(o.subrange(i, n)[0] == (out + rest)[0]);
        }
        if k == 2 {
            assert(o[i + 1] == out[1]) by {
                assert(o.subrange(i, n)[1] == (out + rest)[1]);
            }
        }
        assert(jsonc_valid(st2));
        lemma_reblank(c, o, i + k, st2);
        let sh = jsonc_shadow(st);
        lemma_blank_from_unfold(o, i, sh);
        if k == 2 {
            assert(sh == jsonc_start());
            assert(jsonc_step(o, i, sh) == (seq![' '], 1int, sh));
            lemma_blank_from_unfold(o, i + 1, sh);
            assert(jsonc_step(o, i + 1, sh) == (seq![' '], 1int, sh));
            assert(jsonc_shadow(st2) == sh);
            assert(seq![' '] + (seq![' '] + o.subrange(i + 2, n)) =~= o.subrange(i, n));
        } else {
            if !st.line_comment && !st.block_comment && !st.in_string && c[i] == '/' && i + 1 < n {
                lemma_blank_from_unfold(c, i + 1, st2);
                assert(o[i + 1] == c[i + 1]) by {
                    assert(o.subrange(i + 1, n)[0] == rest[0]);
                }
            }
            assert(jsonc_step(o, i, sh) == (out, 1int, jsonc_shadow(st2)));
            assert(out + o.subrange(i + 1, n) =~= o.subrange(i, n));
        }
    } else {
        assert(o.subrange(i, n) =~= Seq::<char>::empty());
    }
}

/// Law: blanking comments twice gives what blanking once gave: the blanked
/// text has no comment left.
pub proof fn lemma_strip_jsonc_idempotent(text: Seq<char>)
    ensures
        strip_jsonc(text) matches Ok(out) ==> strip_jsonc(out) == Ok::<Seq<char>, Seq<char>>(out),
{
    let out = jsonc_blank_from(text, 0, jsonc_start()).0;
    lemma_blank_from_shape(text, 0, jsonc_start());
    assert(out.subrange(0, text.len() as int) =~= out);
    lemma_reblank(text, out, 0, jsonc_start());
    assert(out.subrange(0, out.len() as int) =~= out);
}

/// Version of the public settings format.
pub const EDITABLE_SETTINGS_SCHEMA_VERSION: u32 = 1;

/// `zh_text` for Chinese, `en_text` otherwise.
pub fn localized<'a>(zh: bool, zh_text: &'a str, en_text: &'a str) -> (t: &'a str)
    ensures
        t@ == if zh {
            zh_text@
        } else {
            en_text@
        },
{
    if zh {
        zh_text
    } else {
        en_text
    }
}

/// The user-editable settings.
#[derive(Clone, Debug)]
pub struct EditableSettings {
    pub schema_version: u32,
    pub general: EditableGeneral,
    pub appearance: EditableAppearance,
}

/// General settings.
#[derive(Clone, Debug)]
pub struct EditableGeneral {
    pub refresh_interval: String,
    pub show_usage: EditableUsage,
    pub quota_alert_percent: u8,
    pub start_with_windows: bool,
    pub language: String,
}

/// Which quota windows the widget shows.
#[derive(Clone, Copy, Debug, PartialEq, Eq, Structural)]
pub struct EditableUsage {
    pub session_5h: bool,
    pub weekly: bool,
}

/// Appearance settings.
#[derive(Clone, Debug)]
pub struct EditableAppearance {
    pub theme: String,
    pub layout: String,
    pub dark: EditableThemeStyle,
    pub light: EditableThemeStyle,
}

/// The editable part of a theme style.
#[derive(Clone, Debug)]
pub struct EditableThemeStyle {
    pub panel_background: String,
    pub panel_border: String,
    pub frosted_strength: u8,
    pub quota_type: String,
    pub remaining: String,
    pub reset_time: String,
    pub error: String,
    pub progress_high: String,
    pub progress_medium: String,
    pub progress_low: String,
    pub progress_consumed: String,
    pub drag_handle: String,
}

/// An editable theme style as plain values.
pub struct EditableStyleView {
    pub panel_background: Seq<char>,
    pub panel_border: Seq<char>,
    pub frosted_strength: u8,
    pub quota_type: Seq<char>,
    pub remaining: Seq<char>,
    pub reset_time: Seq<char>,
    pub error: Seq<char>,
    pub progress_high: Seq<char>,
    pub progress_medium: Seq<char>,
    pub progress_low: Seq<char>,
    pub progress_consumed: Seq<char>,
    pub drag_handle: Seq<char>,
}

impl View for EditableThemeStyle {
    type V = EditableStyleView;

    open spec fn view(&self) -> EditableStyleView {
        EditableStyleView {
            panel_background: self.panel_background@,
            panel_border: self.panel_border@,
            frosted_strength: self.frosted_strength,
            quota_type: self.quota_type@,
            remaining: self.remaining@,
            reset_time: self.reset_time@,
            error: self.error@,
            progress_high: self.progress_high@,
            progress_medium: self.progress_medium@,
            progress_low: self.progress_low@,
            progress_consumed: self.progress_consumed@,
            drag_handle: self.drag_handle@,
        }
    }
}

/// General settings as plain values.
pub struct GeneralView {
    pub refresh_interval: Seq<char>,
    pub show_usage: EditableUsage,
    pub quota_alert_percent: u8,
    pub start_with_windows: bool,
    pub language: Seq<char>,
}

impl View for EditableGeneral {
    type V = GeneralView;

    open spec fn view(&self) -> GeneralView {
        GeneralView {
            refresh_interval: self.refresh_interval@,
            show_usage: self.show_usage,
            quota_alert_percent: self.quota_alert_percent,
            start_with_windows: self.start_with_windows,
            language: self.language@,
        }
    }
}

/// Appearance settings as plain values.
pub struct AppearanceView {
    pub theme: Seq<char>,
    pub layout: Seq<char>,
    pub dark: EditableStyleView,
    pub light: EditableStyleView,
}

impl View for EditableAppearance {
    type V = AppearanceView;

    open spec fn view(&self) -> AppearanceView {
        AppearanceView {
            theme: self.theme@,
            layout: self.layout@,
            dark: self.dark@,
            light: self.light@,
        }
    }
}

/// The editable settings as plain values.
pub struct SettingsView {
    pub schema_version: u32,
    pub general: GeneralView,
    pub appearance: AppearanceView,
}

impl View for EditableSettings {
    type V = SettingsView;

    open spec fn view(&self) -> SettingsView {
        SettingsView {
            schema_version: self.schema_version,
            general: self.general@,
            appearance: self.appearance@,
        }
    }
}

/// The editable part of a theme style.
pub open spec fn editable_of_style(s: StyleView) -> EditableStyleView {
    EditableStyleView {
        panel_background: s.panel_background,
        panel_border: s.panel_border,
        frosted_strength: s.panel_frosted_strength,
        quota_type: s.quota_type,
        remaining: s.remaining,
        reset_time: s.reset_time,
        error: s.error,
        progress_high: s.progress_high,
        progress_medium: s.progress_medium,
        progress_low: s.progress_low,
        progress_consumed: s.progress_consumed,
        drag_handle: s.drag_handle,
    }
}

/// The theme style of editable settings, without the legacy field.
pub open spec fn style_of_editable(e: EditableStyleView) -> StyleView {
    StyleView {
        panel_background: e.panel_background,
        panel_border: e.panel_border,
        panel_blur_radius: 0,
        panel_frosted_strength: e.frosted_strength,
        quota_type: e.quota_type,
        remaining: e.remaining,
        reset_time: e.reset_time,
        error: e.error,
        progress_high: e.progress_high,
        progress_medium: e.progress_medium,
        progress_low: e.progress_low,
        progress_consumed: e.progress_consumed,
        drag_handle: e.drag_handle,
    }
}

fn copy_text(s: &String) -> (out: String)
    ensures
        out@ == s@,
{
    s.clone()
}

impl EditableThemeStyle {
    /// The editable part of a theme style.
    pub fn from_theme_style(style: &ThemeStyle) -> (e: Self)
        ensures
            e@ == editable_of_style(style@),
    {
        Self {
            panel_background: copy_text(&style.panel_background),
            panel_border: copy_text(&style.panel_border),
            frosted_strength: style.panel_frosted_strength,
            quota_type: copy_text(&style.quota_type),
            remaining: copy_text(&style.remaining),
            reset_time: copy_text(&style.reset_time),
            error: copy_text(&style.error),
            progress_high: copy_text(&style.progress_high),
            progress_medium: copy_text(&style.progress_medium),
            progress_low: copy_text(&style.progress_low),
            progress_consumed: copy_text(&style.progress_consumed),
            drag_handle: copy_text(&style.drag_handle),
        }
    }

    /// The theme style of these settings.
    pub fn to_theme_style(&self) -> (s: ThemeStyle)
        ensures
            s@ == style_of_editable(self@),
    {
        ThemeStyle {
            panel_background: copy_text(&self.panel_background),
            panel_border: copy_text(&self.panel_border),
            panel_blur_radius: 0,
            panel_frosted_strength: self.frosted_strength,
            quota_type: copy_text(&self.quota_type),
            remaining: copy_text(&self.remaining),
            reset_time: copy_text(&self.reset_time),
            error: copy_text(&self.error),
            progress_high: copy_text(&self.progress_high),
            progress_medium: copy_text(&self.progress_medium),
            progress_low: copy_text(&self.progress_low),
            progress_consumed: copy_text(&self.progress_consumed),
            drag_handle: copy_text(&self.drag_handle),
        }
    }
}

/// Law: the editable part of the style of editable settings is those
/// settings, and a style without the legacy field is the style of its
/// editable part.
pub proof fn lemma_editable_style_round_trip(e: EditableStyleView, s: StyleView)
    ensures
        editable_of_style(style_of_editable(e)) == e,
        s.panel_blur_radius == 0 ==> style_of_editable(editable_of_style(s)) == s,
{
}

/// `c` is an ASCII hexadecimal digit.
pub open spec fn is_hex_digit(c: char) -> bool {
    ('0' <= c && c <= '9') || ('a' <= c && c <= 'f') || ('A' <= c && c <= 'F')
}

/// `t` is `#` and then six or eight hexadecimal digits.
pub open spec fn hex_color_well_formed(t: Seq<char>) -> bool {
    &&& t.len() == 7 || t.len() == 9
    &&& t[0] == '#'
    &&& forall|k: int| 1 <= k < t.len() ==> is_hex_digit(#[trigger] t[k])
}

/// A colour setting after validation: the canonical text of the trimmed
/// `#RRGGBB` or `#RRGGBBAA` value, or the error for `path`.
pub open spec fn checked_color_text(value: Seq<char>, path: Seq<char>) -> Result<Seq<char>, Seq<char>> {
    let t = trim(value);
    if hex_color_well_formed(t) {
        Ok(hex_rgba_text(parse_color(t).unwrap()))
    } else {
        Err(path + ": expected #RRGGBB or #RRGGBBAA"@)
    }
}

proof fn lemma_hex_digits_parse(h: Seq<char>, n: nat)
    requires
        h.len() == 2 * n,
        forall|k: int| 0 <= k < h.len() ==> is_hex_digit(#[trigger] h[k]),
    ensures
        scan_hex_pieces_parsed(h, n),
    decreases n,
{
    if n > 0 {
        assert(is_hex_digit(h[0]) && is_hex_digit(h[1]));
        let t = h.skip(2);
        assert forall|k: int| 0 <= k < t.len() implies is_hex_digit(#[trigger] t[k]) by {
            assert(t[k] == h[k + 2]);
        }
        lemma_hex_digits_parse(t, (n - 1) as nat);
    }
}

/// Reading `n` pieces of `h` gives `n` bytes.
pub open spec fn scan_hex_pieces_parsed(h: Seq<char>, n: nat) -> bool {
    crate::color::scan_hex_pieces(h, n) is Parsed
}

proof fn lemma_well_formed_parses(t: Seq<char>)
    requires
        hex_color_well_formed(t),
    ensures
        parse_color(t) is Some,
        !hex_cut_panics(t),
        trim(t) == t,
{
    assert(all_ascii(t)) by {
        assert forall|k: int| 0 <= k < t.len() implies is_ascii_char(#[trigger] t[k]) by {
            if k > 0 {
                assert(is_hex_digit(t[k]));
            }
        }
    }
    lemma_ascii_hex_never_panics(t);
    assert(!crate::text::is_whitespace(t[0]));
    assert(is_hex_digit(t[t.len() - 1]));
    assert(crate::text::trim_start(t) == t);
    assert(crate::text::trim_end(t) == t);
    let h = t.drop_first();
    assert(h[0] == t[1]);
    assert(crate::color::strip_hashes(h) == h);
    assert(crate::color::hex_digits_of(t) == h);
    assert forall|k: int| 0 <= k < h.len() implies is_hex_digit(#[trigger] h[k]) by {
        assert(h[k] == t[k + 1]);
    }
    assert forall|k: int| 0 <= k < h.len() implies crate::color::utf8_width(#[trigger] h[k]) == 1 by {
        assert(is_hex_digit(h[k]));
    }
    crate::color::lemma_utf8_len_ge_len(h);
    lemma_hex_digits_parse(h, (h.len() / 2) as nat);
}

fn exec_is_hex_digit(c: char) -> (b: bool)
    ensures
        b == is_hex_digit(c),
{
    ('0' <= c && c <= '9') || ('a' <= c && c <= 'f') || ('A' <= c && c <= 'F')
}

fn concat(a: &str, b: &str) -> (s: String)
    ensures
        s@ == a@ + b@,
{
    let mut s = to_string(a);
    push_str(&mut s, b);
    s
}

/// Checks that `value`, trimmed, is `#RRGGBB` or `#RRGGBBAA`, and gives its
/// canonical `#RRGGBBAA` text; the error names `path`.
pub fn normalize_hex(value: &str, path: &str) -> (r: Result<String, String>)
    ensures
        match checked_color_text(value@, path@) {
            Ok(t) => r is Ok && r.unwrap()@ == t,
            Err(e) => r is Err && r.unwrap_err()@ == e,
        },
{
    let chars = chars_of(value);
    let (start, end) = trim_bounds(&chars);
    let ghost t = trim(value@);
    let len = end - start;
    let mut ok = (len == 7 || len == 9) && chars[start] == '#';
    if ok {
        let mut k: usize = start + 1;
        while k < end
            invariant
                start + 1 <= k <= end <= chars.len(),
                chars@ == value@,
                t == chars@.subrange(start as int, end as int),
                ok == forall|j: int| start + 1 <= j < k ==> is_hex_digit(#[trigger] chars@[j]),
            decreases end - k,
        {
            ok = ok && exec_is_hex_digit(chars[k]);
            k = k + 1;
        }
        proof {
            if ok {
                assert forall|j: int| 1 <= j < t.len() implies is_hex_digit(#[trigger] t[j]) by {
                    assert(t[j] == chars@[start + j]);
                }
            } else {
                let j = choose|j: int| start + 1 <= j < k && !is_hex_digit(#[trigger] chars@[j]);
                assert(t[j - start] == chars@[j]);
            }
        }
    }
    assert(ok == hex_color_well_formed(t));
    if !ok {
        return Err(concat(path, ": expected #RRGGBB or #RRGGBBAA"));
    }
    let mut digits: Vec<char> = Vec::new();
    let mut k: usize = start;
    while k < end
        invariant
            start <= k <= end <= chars.len(),
            t == chars@.subrange(start as int, end as int),
            digits@ == chars@.subrange(start as int, k as int),
        decreases end - k,
    {
        digits.push(chars[k]);
        assert(chars@.subrange(start as int, k + 1) == chars@.subrange(start as int, k as int).push(chars@[k as int]));
        k = k + 1;
    }
    let trimmed = string_from_chars(&digits);
    proof {
        lemma_well_formed_parses(t);
    }
    match Color::try_from_hex(trimmed.as_str()) {
        Some(color) => Ok(color.to_hex_rgba()),
        None => Err(concat(path, ": invalid color")),
    }
}


/// Check of one colour field named `name` under `path`.
pub open spec fn field_check(value: Seq<char>, path: Seq<char>, name: Seq<char>) -> Result<
    Seq<char>,
    Seq<char>,
> {
    checked_color_text(value, path + "."@ + name)
}

/// An editable theme style after validation: the strength must be at most
/// 100 and every colour `#RRGGBB` or `#RRGGBBAA`; colours come out canonical.
/// The error is the first failing check, in field order.
pub open spec fn checked_editable_style(e: EditableStyleView, path: Seq<char>) -> Result<
    EditableStyleView,
    Seq<char>,
> {
    if e.frosted_strength > 100 {
        Err(path + ".frosted_strength: allowed range is 0-100"@)
    } else if field_check(e.panel_background, path, "panel_background"@) is Err {
        Err(field_check(e.panel_background, path, "panel_background"@)->Err_0)
    } else if field_check(e.panel_border, path, "panel_border"@) is Err {
        Err(field_check(e.panel_border, path, "panel_border"@)->Err_0)
    } else if field_check(e.quota_type, path, "quota_type"@) is Err {
        Err(field_check(e.quota_type, path, "quota_type"@)->Err_0)
    } else if field_check(e.remaining, path, "remaining"@) is Err {
        Err(field_check(e.remaining, path, "remaining"@)->Err_0)
    } else if field_check(e.reset_time, path, "reset_time"@) is Err {
        Err(field_check(e.reset_time, path, "reset_time"@)->Err_0)
    } else if field_check(e.error, path, "error"@) is Err {
        Err(field_check(e.error, path, "error"@)->Err_0)
    } else if field_check(e.progress_high, path, "progress_high"@) is Err {
        Err(field_check(e.progress_high, path, "progress_high"@)->Err_0)
    } else if field_check(e.progress_medium, path, "progress_medium"@) is Err {
        Err(field_check(e.progress_medium, path, "progress_medium"@)->Err_0)
    } else if field_check(e.progress_low, path, "progress_low"@) is Err {
        Err(field_check(e.progress_low, path, "progress_low"@)->Err_0)
    } else if field_check(e.progress_consumed, path, "progress_consumed"@) is Err {
        Err(field_check(e.progress_consumed, path, "progress_consumed"@)->Err_0)
    } else if field_check(e.drag_handle, path, "drag_handle"@) is Err {
        Err(field_check(e.drag_handle, path, "drag_handle"@)->Err_0)
    } else {
        Ok(EditableStyleView {
            panel_background: field_check(e.panel_background, path, "panel_background"@)->Ok_0,
            panel_border: field_check(e.panel_border, path, "panel_border"@)->Ok_0,
            frosted_strength: e.frosted_strength,
            quota_type: field_check(e.quota_type, path, "quota_type"@)->Ok_0,
            remaining: field_check(e.remaining, path, "remaining"@)->Ok_0,
            reset_time: field_check(e.reset_time, path, "reset_time"@)->Ok_0,
            error: field_check(e.error, path, "error"@)->Ok_0,
            progress_high: field_check(e.progress_high, path, "progress_high"@)->Ok_0,
            progress_medium: field_check(e.progress_medium, path, "progress_medium"@)->Ok_0,
            progress_low: field_check(e.progress_low, path, "progress_low"@)->Ok_0,
            progress_consumed: field_check(e.progress_consumed, path, "progress_consumed"@)->Ok_0,
            drag_handle: field_check(e.drag_handle, path, "drag_handle"@)->Ok_0,
        })
    }
}

fn check_field(value: &String, path: &str, name: &str) -> (r: Result<String, String>)
    ensures
        match field_check(value@, path@, name@) {
            Ok(t) => r is Ok && r.unwrap()@ == t,
            Err(e) => r is Err && r.unwrap_err()@ == e,
        },
{
    let mut field_path = to_string(path);
    push_char(&mut field_path, '.');
    push_str(&mut field_path, name);
    assert(field_path@ == path@ + "."@ + name@) by {
        reveal_strlit(".");
    }
    normalize_hex(value.as_str(), field_path.as_str())
}

impl EditableThemeStyle {
    /// Checks the strength range and every colour, naming the failing field
    /// under `path`; gives the style with canonical colours.
    pub fn validate_and_normalize(&self, path: &str) -> (r: Result<Self, String>)
        ensures
            match checked_editable_style(self@, path@) {
                Ok(v) => r is Ok && r.unwrap()@ == v,
                Err(e) => r is Err && r.unwrap_err()@ == e,
            },
    {
        if self.frosted_strength > 100 {
            return Err(concat(path, ".frosted_strength: allowed range is 0-100"));
        }
        let panel_background = match check_field(&self.panel_background, path, "panel_background") {
            Ok(v) => v,
            Err(e) => return Err(e),
        };
        let panel_border = match check_field(&self.panel_border, path, "panel_border") {
            Ok(v) => v,
            Err(e) => return Err(e),
        };
        let quota_type = match check_field(&self.quota_type, path, "quota_type") {
            Ok(v) => v,
            Err(e) => return Err(e),
        };
        let remaining = match check_field(&self.remaining, path, "remaining") {
            Ok(v) => v,
            Err(e) => return Err(e),
        };
        let reset_time = match check_field(&self.reset_time, path, "reset_time") {
            Ok(v) => v,
            Err(e) => return Err(e),
        };
        let error = match check_field(&self.error, path, "error") {
            Ok(v) => v,
            Err(e) => return Err(e),
        };
        let progress_high = match check_field(&self.progress_high, path, "progress_high") {
            Ok(v) => v,
            Err(e) => return Err(e),
        };
        let progress_medium = match check_field(&self.progress_medium, path, "progress_medium") {
            Ok(v) => v,
            Err(e) => return Err(e),
        };
        let progress_low = match check_field(&self.progress_low, path, "progress_low") {
            Ok(v) => v,
            Err(e) => return Err(e),
        };
        let progress_consumed = match check_field(&self.progress_consumed, path, "progress_consumed") {
            Ok(v) => v,
            Err(e) => return Err(e),
        };
        let drag_handle = match check_field(&self.drag_handle, path, "drag_handle") {
            Ok(v) => v,
            Err(e) => return Err(e),
        };
        Ok(Self {
            panel_background,
            panel_border,
            frosted_strength: self.frosted_strength,
            quota_type,
            remaining,
            reset_time,
            error,
            progress_high,
            progress_medium,
            progress_low,
            progress_consumed,
            drag_handle,
        })
    }
}


/// The allowed refresh intervals.
pub open spec fn refresh_interval_allowed(v: Seq<char>) -> bool {
    v == "1m"@ || v == "5m"@ || v == "15m"@ || v == "1h"@
}

/// The allowed alert thresholds.
pub open spec fn alert_percent_allowed(v: u8) -> bool {
    v == 0 || v == 10 || v == 20 || v == 30
}

/// The allowed language settings: `system` or a language code.
pub open spec fn language_setting_allowed(v: Seq<char>) -> bool {
    v == "system"@ || is_language_code(v)
}

/// The allowed theme settings.
pub open spec fn theme_setting_allowed(v: Seq<char>) -> bool {
    v == "system"@ || v == "dark"@ || v == "light"@
}

/// The allowed layout settings.
pub open spec fn layout_setting_allowed(v: Seq<char>) -> bool {
    v == "default"@ || v == "minimal"@
}

/// Editable settings after validation: each rule in turn, the first broken
/// one giving the error; on success the settings with canonical colours.
pub open spec fn checked_settings(s: SettingsView) -> Result<SettingsView, Seq<char>> {
    if s.schema_version != EDITABLE_SETTINGS_SCHEMA_VERSION {
        Err("schema_version: expected 1, got "@ + decimal(s.schema_version as nat))
    } else if !refresh_interval_allowed(s.general.refresh_interval) {
        Err("general.refresh_interval: allowed values are 1m, 5m, 15m, 1h"@)
    } else if !s.general.show_usage.session_5h && !s.general.show_usage.weekly {
        Err("general.show_usage: session_5h and weekly cannot both be false"@)
    } else if !alert_percent_allowed(s.general.quota_alert_percent) {
        Err("general.quota_alert_percent: allowed values are 0, 10, 20, 30"@)
    } else if !language_setting_allowed(s.general.language) {
        Err("general.language: unsupported language code '"@ + s.general.language + "'"@)
    } else if !theme_setting_allowed(s.appearance.theme) {
        Err("appearance.theme: allowed values are system, dark, light"@)
    } else if !layout_setting_allowed(s.appearance.layout) {
        Err("appearance.layout: allowed values are default, minimal"@)
    } else {
        match checked_editable_style(s.appearance.dark, "appearance.dark"@) {
            Err(e) => Err(e),
            Ok(dark) => match checked_editable_style(s.appearance.light, "appearance.light"@) {
                Err(e) => Err(e),
                Ok(light) => Ok(
                    SettingsView {
                        appearance: AppearanceView { dark, light, ..s.appearance },
                        ..s
                    },
                ),
            },
        }
    }
}

/// Law: every value the settings document lists for the refresh interval: `1m`, `5m`, `15m` or `1h`
/// is accepted, and only those: in settings that validate, setting the
/// field alone to such a value still validates and keeps it; any other
/// value is refused with that field's error.
pub proof fn lemma_refresh_interval_values_validate(s: SettingsView, v: Seq<char>)
    requires
        checked_settings(s) is Ok,
    ensures
        (v == "1m"@ || v == "5m"@ || v == "15m"@ || v == "1h"@) ==> (checked_settings((SettingsView { general: GeneralView { refresh_interval: v, ..s.general }, ..s })) matches Ok(r) && r.general.refresh_interval == v),
        !(v == "1m"@ || v == "5m"@ || v == "15m"@ || v == "1h"@) ==> checked_settings((SettingsView { general: GeneralView { refresh_interval: v, ..s.general }, ..s })) == Err::<SettingsView, Seq<char>>("general.refresh_interval: allowed values are 1m, 5m, 15m, 1h"@),
{
}

/// Law: every value the settings document lists for the theme: `system`, `dark` or `light`
/// is accepted, and only those: in settings that validate, setting the
/// field alone to such a value still validates and keeps it; any other
/// value is refused with that field's error.
pub proof fn lemma_theme_values_validate(s: SettingsView, v: Seq<char>)
    requires
        checked_settings(s) is Ok,
    ensures
        (v == "system"@ || v == "dark"@ || v == "light"@) ==> (checked_settings((SettingsView { appearance: AppearanceView { theme: v, ..s.appearance }, ..s })) matches Ok(r) && r.appearance.theme == v),
        !(v == "system"@ || v == "dark"@ || v == "light"@) ==> checked_settings((SettingsView { appearance: AppearanceView { theme: v, ..s.appearance }, ..s })) == Err::<SettingsView, Seq<char>>("appearance.theme: allowed values are system, dark, light"@),
{
}

/// Law: every value the settings document lists for the layout: `default` or `minimal`
/// is accepted, and only those: in settings that validate, setting the
/// field alone to such a value still validates and keeps it; any other
/// value is refused with that field's error.
pub proof fn lemma_layout_values_validate(s: SettingsView, v: Seq<char>)
    requires
        checked_settings(s) is Ok,
    ensures
        (v == "default"@ || v == "minimal"@) ==> (checked_settings((SettingsView { appearance: AppearanceView { layout: v, ..s.appearance }, ..s })) matches Ok(r) && r.appearance.layout == v),
        !(v == "default"@ || v == "minimal"@) ==> checked_settings((SettingsView { appearance: AppearanceView { layout: v, ..s.appearance }, ..s })) == Err::<SettingsView, Seq<char>>("appearance.layout: allowed values are default, minimal"@),
{
}

proof fn lemma_language_code_list(v: Seq<char>)
    ensures
        is_language_code(v) <==> (v == "en"@ || v == "nl"@ || v == "es"@ || v == "fr"@ || v == "de"@ || v == "ja"@ || v == "ko"@ || v == "zh-CN"@ || v == "zh-TW"@ || v == "ru"@ || v == "pt-BR"@),
{
    if is_language_code(v) {
        let l = choose|l: LanguageId| language_code(l) == v;
        assert(language_code(l) == v);
    }
    if v == "en"@ {
        assert(language_code(LanguageId::English) == v);
    }
    if v == "nl"@ {
        assert(language_code(LanguageId::Dutch) == v);
    }
    if v == "es"@ {
        assert(language_code(LanguageId::Spanish) == v);
    }
    if v == "fr"@ {
        assert(language_code(LanguageId::French) == v);
    }
    if v == "de"@ {
        assert(language_code(LanguageId::German) == v);
    }
    if v == "ja"@ {
        assert(language_code(LanguageId::Japanese) == v);
    }
    if v == "ko"@ {
        assert(language_code(LanguageId::Korean) == v);
    }
    if v == "zh-CN"@ {
        assert(language_code(LanguageId::SimplifiedChinese) == v);
    }
    if v == "zh-TW"@ {
        assert(language_code(LanguageId::TraditionalChinese) == v);
    }
    if v == "ru"@ {
        assert(language_code(LanguageId::Russian) == v);
    }
    if v == "pt-BR"@ {
        assert(language_code(LanguageId::PortugueseBrazil) == v);
    }
}

/// Law: every value the settings document lists for the language: `system` or one of the language codes
/// is accepted, and only those: in settings that validate, setting the
/// field alone to such a value still validates and keeps it; any other
/// value is refused with that field's error.
pub proof fn lemma_language_values_validate(s: SettingsView, v: Seq<char>)
    requires
        checked_settings(s) is Ok,
    ensures
        (v == "system"@ || v == "en"@ || v == "nl"@ || v == "es"@ || v == "fr"@ || v == "de"@
            || v == "ja"@ || v == "ko"@ || v == "zh-CN"@ || v == "zh-TW"@ || v == "ru"@ || v == "pt-BR"@) ==> (checked_settings((SettingsView { general: GeneralView { language: v, ..s.general }, ..s })) matches Ok(r) && r.general.language == v),
        !(v == "system"@ || v == "en"@ || v == "nl"@ || v == "es"@ || v == "fr"@ || v == "de"@
            || v == "ja"@ || v == "ko"@ || v == "zh-CN"@ || v == "zh-TW"@ || v == "ru"@ || v == "pt-BR"@) ==> checked_settings((SettingsView { general: GeneralView { language: v, ..s.general }, ..s })) == Err::<SettingsView, Seq<char>>("general.language: unsupported language code '"@ + v + "'"@),
{
    lemma_language_code_list(v);
}

/// Law: the alert threshold may be 0 (off), 10, 20 or 30 and nothing else,
/// and at least one usage window must stay shown: in settings that validate,
/// changing either alone is accepted exactly then, and refused with that
/// rule's error otherwise.
pub proof fn lemma_alert_and_usage_rules(s: SettingsView, a: u8, session_5h: bool, weekly: bool)
    requires
        checked_settings(s) is Ok,
    ensures
        (a == 0 || a == 10 || a == 20 || a == 30) ==> (checked_settings((SettingsView { general: GeneralView { quota_alert_percent: a, ..s.general }, ..s })) matches Ok(r)
            && r.general.quota_alert_percent == a),
        !(a == 0 || a == 10 || a == 20 || a == 30) ==> checked_settings((SettingsView { general: GeneralView { quota_alert_percent: a, ..s.general }, ..s })) == Err::<SettingsView, Seq<char>>("general.quota_alert_percent: allowed values are 0, 10, 20, 30"@),
        (session_5h || weekly) ==> checked_settings((SettingsView { general: GeneralView { show_usage: EditableUsage { session_5h, weekly }, ..s.general }, ..s })) is Ok,
        !session_5h && !weekly ==> checked_settings((SettingsView { general: GeneralView { show_usage: EditableUsage { session_5h, weekly }, ..s.general }, ..s })) == Err::<SettingsView, Seq<char>>("general.show_usage: session_5h and weekly cannot both be false"@),
{
}

fn text_is_one_of4(v: &String, a: &str, b: &str, c: &str, d: &str) -> (r: bool)
    ensures
        r == (v@ == a@ || v@ == b@ || v@ == c@ || v@ == d@),
{
    str_eq(v.as_str(), a) || str_eq(v.as_str(), b) || str_eq(v.as_str(), c) || str_eq(v.as_str(), d)
}

impl EditableSettings {
    /// Checks every rule of the settings and gives them with canonical
    /// colours, or the error of the first rule broken; nothing is changed on
    /// failure.
    pub fn validate_and_normalize(&self) -> (r: Result<Self, String>)
        ensures
            match checked_settings(self@) {
                Ok(v) => r is Ok && r.unwrap()@ == v,
                Err(e) => r is Err && r.unwrap_err()@ == e,
            },
    {
        if self.schema_version != EDITABLE_SETTINGS_SCHEMA_VERSION {
            let mut e = to_string("schema_version: expected 1, got ");
            push_decimal(&mut e, self.schema_version as u64);
            return Err(e);
        }
        if !text_is_one_of4(&self.general.refresh_interval, "1m", "5m", "15m", "1h") {
            return Err(to_string("general.refresh_interval: allowed values are 1m, 5m, 15m, 1h"));
        }
        if !self.general.show_usage.session_5h && !self.general.show_usage.weekly {
            return Err(to_string("general.show_usage: session_5h and weekly cannot both be false"));
        }
        let alert = self.general.quota_alert_percent;
        if !(alert == 0 || alert == 10 || alert == 20 || alert == 30) {
            return Err(to_string("general.quota_alert_percent: allowed values are 0, 10, 20, 30"));
        }
        if !str_eq(self.general.language.as_str(), "system") && !is_supported_language_code(
            self.general.language.as_str(),
        ) {
            let mut e = to_string("general.language: unsupported language code '");
            push_str(&mut e, self.general.language.as_str());
            push_char(&mut e, '\'');
            assert(e@ == "general.language: unsupported language code '"@ + self.general.language@
                + "'"@) by {
                reveal_strlit("'");
            }
            return Err(e);
        }
        if !(str_eq(self.appearance.theme.as_str(), "system") || str_eq(
            self.appearance.theme.as_str(),
            "dark",
        ) || str_eq(self.appearance.theme.as_str(), "light")) {
            return Err(to_string("appearance.theme: allowed values are system, dark, light"));
        }
        if !(str_eq(self.appearance.layout.as_str(), "default") || str_eq(
            self.appearance.layout.as_str(),
            "minimal",
        )) {
            return Err(to_string("appearance.layout: allowed values are default, minimal"));
        }
        let dark = match self.appearance.dark.validate_and_normalize("appearance.dark") {
            Ok(v) => v,
            Err(e) => return Err(e),
        };
        let light = match self.appearance.light.validate_and_normalize("appearance.light") {
            Ok(v) => v,
            Err(e) => return Err(e),
        };
        Ok(Self {
            schema_version: self.schema_version,
            general: EditableGeneral {
                refresh_interval: copy_text(&self.general.refresh_interval),
                show_usage: self.general.show_usage,
                quota_alert_percent: self.general.quota_alert_percent,
                start_with_windows: self.general.start_with_windows,
                language: copy_text(&self.general.language),
            },
            appearance: EditableAppearance {
                theme: copy_text(&self.appearance.theme),
                layout: copy_text(&self.appearance.layout),
                dark,
                light,
            },
        })
    }
}


proof fn lemma_hex_text_well_formed(c: Color)
    ensures
        hex_color_well_formed(hex_rgba_text(c)),
        checked_color_text(hex_rgba_text(c), seq![]) is Ok,
{
    let t = hex_rgba_text(c);
    assert(t.len() == 9);
    assert forall|k: int| 1 <= k < t.len() implies is_hex_digit(#[trigger] t[k]) by {
        assert(k < 9);
    }
    lemma_well_formed_parses(t);
}

proof fn lemma_checked_color_canonical(value: Seq<char>, path: Seq<char>, again: Seq<char>)
    ensures
        checked_color_text(value, path) matches Ok(t) ==> checked_color_text(t, again) == Ok::<
            Seq<char>,
            Seq<char>,
        >(t),
{
    if let Ok(t) = checked_color_text(value, path) {
        let c = parse_color(trim(value)).unwrap();
        assert(t == hex_rgba_text(c));
        lemma_hex_text_well_formed(c);
        lemma_well_formed_parses(t);
        crate::color::lemma_hex_rgba_round_trip(c);
    }
}

proof fn lemma_checked_style_canonical(e: EditableStyleView, path: Seq<char>, again: Seq<char>)
    ensures
        checked_editable_style(e, path) matches Ok(n) ==> checked_editable_style(n, again) == Ok::<
            EditableStyleView,
            Seq<char>,
        >(n),
{
    if let Ok(n) = checked_editable_style(e, path) {
        lemma_checked_color_canonical(e.panel_background, path + "."@ + "panel_background"@, again + "."@ + "panel_background"@);
        lemma_checked_color_canonical(e.panel_border, path + "."@ + "panel_border"@, again + "."@ + "panel_border"@);
        lemma_checked_color_canonical(e.quota_type, path + "."@ + "quota_type"@, again + "."@ + "quota_type"@);
        lemma_checked_color_canonical(e.remaining, path + "."@ + "remaining"@, again + "."@ + "remaining"@);
        lemma_checked_color_canonical(e.reset_time, path + "."@ + "reset_time"@, again + "."@ + "reset_time"@);
        lemma_checked_color_canonical(e.error, path + "."@ + "error"@, again + "."@ + "error"@);
        lemma_checked_color_canonical(e.progress_high, path + "."@ + "progress_high"@, again + "."@ + "progress_high"@);
        lemma_checked_color_canonical(e.progress_medium, path + "."@ + "progress_medium"@, again + "."@ + "progress_medium"@);
        lemma_checked_color_canonical(e.progress_low, path + "."@ + "progress_low"@, again + "."@ + "progress_low"@);
        lemma_checked_color_canonical(e.progress_consumed, path + "."@ + "progress_consumed"@, again + "."@ + "progress_consumed"@);
        lemma_checked_color_canonical(e.drag_handle, path + "."@ + "drag_handle"@, again + "."@ + "drag_handle"@);
    }
}

/// Law: validated settings pass validation again unchanged.
pub proof fn lemma_validate_idempotent(s: SettingsView)
    ensures
        checked_settings(s) matches Ok(n) ==> checked_settings(n) == Ok::<SettingsView, Seq<char>>(n),
{
    lemma_checked_style_canonical(s.appearance.dark, "appearance.dark"@, "appearance.dark"@);
    lemma_checked_style_canonical(s.appearance.light, "appearance.light"@, "appearance.light"@);
}


/// `zh_text` for Chinese, `en_text` otherwise.
pub open spec fn loc(zh: bool, zh_text: Seq<char>, en_text: Seq<char>) -> Seq<char> {
    if zh {
        zh_text
    } else {
        en_text
    }
}

/// The lower-case hexadecimal digit for `n` (< 16).
pub open spec fn lower_hex_digit(n: nat) -> char {
    if n < 10 {
        ((n + 48) as u32) as char
    } else {
        ((n + 87) as u32) as char
    }
}

/// How a JSON string literal writes `c`: quote, backslash and control
/// characters are escaped, everything else is kept.
pub open spec fn json_escape_char(c: char) -> Seq<char> {
    let u = c as u32;
    if c == '"' {
        seq!['\\', '"']
    } else if c == '\\' {
        seq!['\\', '\\']
    } else if u == 0x08 {
        seq!['\\', 'b']
    } else if u == 0x09 {
        seq!['\\', 't']
    } else if u == 0x0A {
        seq!['\\', 'n']
    } else if u == 0x0C {
        seq!['\\', 'f']
    } else if u == 0x0D {
        seq!['\\', 'r']
    } else if u < 0x20 {
        seq!['\\', 'u', '0', '0', lower_hex_digit(u as nat / 16), lower_hex_digit(u as nat % 16)]
    } else {
        seq![c]
    }
}

/// The escaped characters of `s`.
pub open spec fn json_escape(s: Seq<char>) -> Seq<char>
    decreases s.len(),
{
    if s.len() == 0 {
        seq![]
    } else {
        json_escape(s.drop_last()) + json_escape_char(s.last())
    }
}

/// `s` as a JSON string literal.
pub open spec fn json_quoted(s: Seq<char>) -> Seq<char> {
    seq!['"'] + json_escape(s) + seq!['"']
}

#[verifier::external_type_specification]
#[verifier::external_body]
pub struct ExJsonError(serde_json::Error);

/// serde_json's `to_string` on a string slice: a JSON string literal, with
/// `"`, `\` and the control characters below U+0020 escaped (`\b`, `\t`,
/// `\n`, `\f`, `\r`, else `\u00xx` in lower-case hex) and all else kept.
/// The contract also claims success: serde_json writes a string into a `Vec`,
/// whose writer does not fail.
#[verifier::external_body]
fn json_string_literal(value: &str) -> (r: Result<String, serde_json::Error>)
    ensures
        r is Ok,
        r matches Ok(t) ==> t@ == json_quoted(value@),
{
    serde_json::to_string(value)
}

/// `value` quoted for JSON (`"?"` should quoting fail).
fn quote_json(value: &str) -> (q: String)
    ensures
        q@ == json_quoted(value@),
{
    match json_string_literal(value) {
        Ok(t) => t,
        Err(_) => to_string("\"?\""),
    }
}

/// `true` or `false`.
pub open spec fn bool_text(b: bool) -> Seq<char> {
    if b {
        "true"@
    } else {
        "false"@
    }
}

fn bool_str(b: bool) -> (t: &'static str)
    ensures
        t@ == bool_text(b),
{
    if b {
        "true"
    } else {
        "false"
    }
}

/// `indent` spaces.
pub open spec fn pad_text(indent: nat) -> Seq<char> {
    Seq::new(indent, |i: int| ' ')
}

/// A commented colour entry of the JSONC settings: the comment, the format
/// hint and the quoted value, with a trailing comma where asked.
#[verifier::opaque]
pub open spec fn color_entry_text(
    pad: Seq<char>,
    zh: bool,
    comment: Seq<char>,
    key: Seq<char>,
    value: Seq<char>,
    comma: bool,
) -> Seq<char> {
    pad + "// "@ + comment + "\n"@ + pad + "// "@ + loc(
        zh,
        "格式：#RRGGBB 或 #RRGGBBAA"@,
        "Format: #RRGGBB or #RRGGBBAA"@,
    ) + "\n"@ + pad + "\""@ + key + "\": "@ + json_quoted(value) + if comma {
        ","@
    } else {
        ""@
    }
}

/// The commented JSONC body of an editable theme style, its lines indented by
/// `indent` spaces and its entries separated by blank lines.
pub open spec fn theme_jsonc_text(e: EditableStyleView, zh: bool, indent: nat) -> Seq<char> {
    let pad = pad_text(indent);
    color_entry_text(
        pad,
        zh,
        loc(zh, "面板背景颜色"@, "Panel background color"@),
        "panel_background"@,
        e.panel_background,
        true,
    ) + "\n\n"@ + color_entry_text(
        pad,
        zh,
        loc(zh, "面板边框颜色"@, "Panel border color"@),
        "panel_border"@,
        e.panel_border,
        true,
    ) + "\n\n"@ + frosted_entry_text(pad, zh, e.frosted_strength) + "\n\n"@ + color_entry_text(
        pad,
        zh,
        loc(zh, "额度类型文字颜色"@, "Quota-type text color"@),
        "quota_type"@,
        e.quota_type,
        true,
    ) + "\n\n"@ + color_entry_text(
        pad,
        zh,
        loc(zh, "剩余额度文字颜色"@, "Remaining-quota text color"@),
        "remaining"@,
        e.remaining,
        true,
    ) + "\n\n"@ + color_entry_text(
        pad,
        zh,
        loc(zh, "重置时间文字颜色"@, "Reset-time text color"@),
        "reset_time"@,
        e.reset_time,
        true,
    ) + "\n\n"@ + color_entry_text(
        pad,
        zh,
        loc(zh, "异常状态文字颜色"@, "Error-state text color"@),
        "error"@,
        e.error,
        true,
    ) + "\n\n"@ + color_entry_text(
        pad,
        zh,
        loc(zh, "充足额度颜色"@, "High-quota color"@),
        "progress_high"@,
        e.progress_high,
        true,
    ) + "\n\n"@ + color_entry_text(
        pad,
        zh,
        loc(zh, "中等额度颜色"@, "Medium-quota color"@),
        "progress_medium"@,
        e.progress_medium,
        true,
    ) + "\n\n"@ + color_entry_text(
        pad,
        zh,
        loc(zh, "低额度颜色"@, "Low-quota color"@),
        "progress_low"@,
        e.progress_low,
        true,
    ) + "\n\n"@ + color_entry_text(
        pad,
        zh,
        loc(zh, "已消耗部分颜色"@, "Consumed-progress color"@),
        "progress_consumed"@,
        e.progress_consumed,
        true,
    ) + "\n\n"@ + color_entry_text(
        pad,
        zh,
        loc(zh, "拖拽点颜色"@, "Drag-handle color"@),
        "drag_handle"@,
        e.drag_handle,
        false,
    )
}

/// `s` holds no newline.
pub open spec fn no_newline(s: Seq<char>) -> bool {
    forall|k: int| 0 <= k < s.len() ==> s[k] != '\n'
}

/// Every line of `t` that is not empty starts with `pad`.
#[verifier::opaque]
pub open spec fn lines_indented(t: Seq<char>, pad: Seq<char>) -> bool {
    forall|k: int|
        #![trigger t[k]]
        0 <= k < t.len() && (k == 0 || t[k - 1] == '\n') && t[k] != '\n' ==> k + pad.len() <= t.len()
            && t.subrange(k, k + pad.len()) == pad
}

/// `t` ends inside a line that its indent has already begun.
pub open spec fn line_open(t: Seq<char>, pad: Seq<char>) -> bool {
    pad.len() == 0 || (t.len() > 0 && t.last() != '\n')
}

proof fn lemma_no_newline_add(a: Seq<char>, b: Seq<char>)
    requires
        no_newline(a),
        no_newline(b),
    ensures
        no_newline(a + b),
{
    assert forall|k: int| 0 <= k < (a + b).len() implies (a + b)[k] != '\n' by {
        if k >= a.len() {
            assert((a + b)[k] == b[k - a.len()]);
        }
    }
}

proof fn lemma_indent_alone(pad: Seq<char>)
    requires
        no_newline(pad),
    ensures
        lines_indented(pad, pad),
        line_open(pad, pad),
{
    reveal(lines_indented);
    assert forall|k: int|
        #![trigger pad[k]]
        0 <= k < pad.len() && (k == 0 || pad[k - 1] == '\n') && pad[k] != '\n' implies k + pad.len()
            <= pad.len() && pad.subrange(k, k + pad.len()) == pad by {
        if k > 0 {
            assert(pad[k - 1] != '\n');
        }
        assert(pad.subrange(0, pad.len() as int) =~= pad);
    }
}

/// Text without a newline continues the line that `t` ends in.
proof fn lemma_append_in_line(t: Seq<char>, x: Seq<char>, pad: Seq<char>)
    requires
        lines_indented(t, pad),
        line_open(t, pad),
        no_newline(x),
    ensures
        lines_indented(t + x, pad),
        line_open(t + x, pad),
{
    reveal(lines_indented);
    let u = t + x;
    let p = pad.len() as int;
    assert forall|k: int|
        #![trigger u[k]]
        0 <= k < u.len() && (k == 0 || u[k - 1] == '\n') && u[k] != '\n' implies k + p <= u.len()
            && u.subrange(k, k + p) == pad by {
        if k < t.len() {
            assert(u[k] == t[k]);
            if k > 0 {
                assert(u[k - 1] == t[k - 1]);
            }
            assert(t[k] != '\n');
            assert(u.subrange(k, k + p) =~= t.subrange(k, k + p));
        } else {
            assert(u[k] == x[k - t.len()]);
            if k > t.len() {
                assert(u[k - 1] == x[k - 1 - t.len()]);
            } else if k > 0 {
                assert(u[k - 1] == t.last());
            }
            assert(p == 0);
            assert(u.subrange(k, k) =~= pad);
        }
    }
    if x.len() > 0 {
        assert(u.last() == x.last());
    } else {
        assert(u =~= t);
    }
}

/// A line break, or a blank line, ends a line.
proof fn lemma_append_breaks(t: Seq<char>, breaks: Seq<char>, pad: Seq<char>)
    requires
        lines_indented(t, pad),
        breaks.len() > 0,
        forall|k: int| 0 <= k < breaks.len() ==> breaks[k] == '\n',
    ensures
        lines_indented(t + breaks, pad),
        (t + breaks).last() == '\n',
{
    reveal(lines_indented);
    let u = t + breaks;
    let p = pad.len() as int;
    assert forall|k: int|
        #![trigger u[k]]
        0 <= k < u.len() && (k == 0 || u[k - 1] == '\n') && u[k] != '\n' implies k + p <= u.len()
            && u.subrange(k, k + p) == pad by {
        if k < t.len() {
            assert(u[k] == t[k]);
            if k > 0 {
                assert(u[k - 1] == t[k - 1]);
            }
            assert(t[k] != '\n');
            assert(u.subrange(k, k + p) =~= t.subrange(k, k + p));
        } else {
            assert(u[k] == breaks[k - t.len()]);
        }
    }
    assert(u.last() == breaks.last());
}

/// Indented lines that follow a line break keep every line indented.
proof fn lemma_append_lines(t: Seq<char>, e: Seq<char>, pad: Seq<char>)
    requires
        lines_indented(t, pad),
        lines_indented(e, pad),
        t.len() > 0,
        t.last() == '\n',
    ensures
        lines_indented(t + e, pad),
        e.len() > 0 ==> (t + e).last() == e.last(),
{
    reveal(lines_indented);
    let u = t + e;
    let p = pad.len() as int;
    assert forall|k: int|
        #![trigger u[k]]
        0 <= k < u.len() && (k == 0 || u[k - 1] == '\n') && u[k] != '\n' implies k + p <= u.len()
            && u.subrange(k, k + p) == pad by {
        if k < t.len() {
            assert(u[k] == t[k]);
            if k > 0 {
                assert(u[k - 1] == t[k - 1]);
            }
            assert(t[k] != '\n');
            assert(u.subrange(k, k + p) =~= t.subrange(k, k + p));
        } else {
            let j = k - t.len();
            assert(u[k] == e[j]);
            if j > 0 {
                assert(u[k - 1] == e[j - 1]);
            }
            assert(e[j] != '\n');
            assert(u.subrange(k, k + p) =~= e.subrange(j, j + p));
        }
    }
    if e.len() > 0 {
        assert(u.last() == e.last());
    }
}

proof fn lemma_json_escape_no_newline(s: Seq<char>)
    ensures
        no_newline(json_escape(s)),
    decreases s.len(),
{
    if s.len() > 0 {
        lemma_json_escape_no_newline(s.drop_last());
        let c = s.last();
        let u = c as u32;
        if u < 0x20 && u != 0x08 && u != 0x09 && u != 0x0A && u != 0x0C && u != 0x0D {
            assert(lower_hex_digit(u as nat / 16) != '\n');
            assert(lower_hex_digit(u as nat % 16) != '\n');
        }
        assert(no_newline(json_escape_char(c)));
        lemma_no_newline_add(json_escape(s.drop_last()), json_escape_char(c));
    }
}

proof fn lemma_json_quoted_no_newline(s: Seq<char>)
    ensures
        no_newline(json_quoted(s)),
        json_quoted(s).len() >= 2,
        json_quoted(s).last() == '"',
{
    lemma_json_escape_no_newline(s);
    lemma_no_newline_add(seq!['"'], json_escape(s));
    lemma_no_newline_add(seq!['"'] + json_escape(s), seq!['"']);
}

proof fn lemma_entry_literals()
    ensures
        no_newline("// "@),
        no_newline("\""@),
        no_newline("\": "@),
        no_newline(","@),
        no_newline(""@),
        ""@.len() == 0,
        "\n"@.len() == 1 && "\n"@[0] == '\n',
        "\n\n"@.len() == 2 && "\n\n"@[0] == '\n' && "\n\n"@[1] == '\n',
        no_newline("格式：#RRGGBB 或 #RRGGBBAA"@),
        no_newline("Format: #RRGGBB or #RRGGBBAA"@),
{
    reveal_strlit("// ");
    reveal_strlit("\n");
    reveal_strlit("\n\n");
    reveal_strlit("\"");
    reveal_strlit("\": ");
    reveal_strlit(",");
    reveal_strlit("");
    reveal_strlit("格式：#RRGGBB 或 #RRGGBBAA");
    reveal_strlit("Format: #RRGGBB or #RRGGBBAA");
}

proof fn lemma_color_entry_indented(
    pad: Seq<char>,
    zh: bool,
    comment: Seq<char>,
    key: Seq<char>,
    value: Seq<char>,
    comma: bool,
)
    requires
        no_newline(pad),
        no_newline(comment),
        no_newline(key),
    ensures
        lines_indented(color_entry_text(pad, zh, comment, key, value, comma), pad),
        color_entry_text(pad, zh, comment, key, value, comma).len() > 0,
        !comma ==> color_entry_text(pad, zh, comment, key, value, comma).last() == '"',
{
    lemma_entry_literals();
    lemma_json_quoted_no_newline(value);
    let fmt = loc(zh, "格式：#RRGGBB 或 #RRGGBBAA"@, "Format: #RRGGBB or #RRGGBBAA"@);
    let tail = if comma {
        ","@
    } else {
        ""@
    };
    let nl = "\n"@;
    lemma_indent_alone(pad);
    let t1 = pad + "// "@;
    lemma_append_in_line(pad, "// "@, pad);
    let t2 = t1 + comment;
    lemma_append_in_line(t1, comment, pad);
    let t3 = t2 + nl;
    lemma_append_breaks(t2, nl, pad);
    let t4 = t3 + pad;
    lemma_append_lines(t3, pad, pad);
    let t5 = t4 + "// "@;
    lemma_append_in_line(t4, "// "@, pad);
    let t6 = t5 + fmt;
    lemma_append_in_line(t5, fmt, pad);
    let t7 = t6 + nl;
    lemma_append_breaks(t6, nl, pad);
    let t8 = t7 + pad;
    lemma_append_lines(t7, pad, pad);
    let t9 = t8 + "\""@;
    lemma_append_in_line(t8, "\""@, pad);
    let t10 = t9 + key;
    lemma_append_in_line(t9, key, pad);
    let t11 = t10 + "\": "@;
    lemma_append_in_line(t10, "\": "@, pad);
    let t12 = t11 + json_quoted(value);
    lemma_append_in_line(t11, json_quoted(value), pad);
    assert(t12.last() == '"');
    let t13 = t12 + tail;
    lemma_append_in_line(t12, tail, pad);
    reveal(color_entry_text);
    assert(t13 == color_entry_text(pad, zh, comment, key, value, comma));
    if !comma {
        assert(t13 =~= t12);
    }
}

/// Two lines of comment and the entry of the frosted strength.
#[verifier::opaque]
pub open spec fn frosted_entry_text(pad: Seq<char>, zh: bool, strength: u8) -> Seq<char> {
    pad + "// "@ + loc(zh, "磨砂强度"@, "Frosted intensity"@) + "\n"@ + pad + "// "@ + loc(
        zh,
        "范围：0–100"@,
        "Range: 0–100"@,
    ) + "\n"@ + pad + "\""@ + "frosted_strength"@ + "\": "@ + decimal(strength as nat) + ","@
}

proof fn lemma_frosted_literals()
    ensures
        no_newline("frosted_strength"@),
        no_newline("磨砂强度"@),
        no_newline("Frosted intensity"@),
        no_newline("范围：0–100"@),
        no_newline("Range: 0–100"@),
{
    reveal_strlit("frosted_strength");
    reveal_strlit("磨砂强度");
    reveal_strlit("Frosted intensity");
    reveal_strlit("范围：0–100");
    reveal_strlit("Range: 0–100");
}

proof fn lemma_frosted_entry_indented(pad: Seq<char>, zh: bool, strength: u8)
    requires
        no_newline(pad),
    ensures
        lines_indented(frosted_entry_text(pad, zh, strength), pad),
{
    lemma_entry_literals();
    lemma_frosted_literals();
    crate::text::lemma_decimal_digits(strength as nat);
    let c1 = loc(zh, "磨砂强度"@, "Frosted intensity"@);
    let c2 = loc(zh, "范围：0–100"@, "Range: 0–100"@);
    let d = decimal(strength as nat);
    assert(no_newline(d));
    let nl = "\n"@;
    lemma_indent_alone(pad);
    let t1 = pad + "// "@;
    lemma_append_in_line(pad, "// "@, pad);
    let t2 = t1 + c1;
    lemma_append_in_line(t1, c1, pad);
    let t3 = t2 + nl;
    lemma_append_breaks(t2, nl, pad);
    let t4 = t3 + pad;
    lemma_append_lines(t3, pad, pad);
    let t5 = t4 + "// "@;
    lemma_append_in_line(t4, "// "@, pad);
    let t6 = t5 + c2;
    lemma_append_in_line(t5, c2, pad);
    let t7 = t6 + nl;
    lemma_append_breaks(t6, nl, pad);
    let t8 = t7 + pad;
    lemma_append_lines(t7, pad, pad);
    let t9a = t8 + "\""@;
    lemma_append_in_line(t8, "\""@, pad);
    let t9b = t9a + "frosted_strength"@;
    lemma_append_in_line(t9a, "frosted_strength"@, pad);
    let t9 = t9b + "\": "@;
    lemma_append_in_line(t9b, "\": "@, pad);
    let t10 = t9 + d;
    lemma_append_in_line(t9, d, pad);
    let t11 = t10 + ","@;
    lemma_append_in_line(t10, ","@, pad);
    reveal(frosted_entry_text);
    assert(t11 == frosted_entry_text(pad, zh, strength));
}

proof fn lemma_theme_literals()
    ensures
        no_newline("面板背景颜色"@),
        no_newline("Panel background color"@),
        no_newline("panel_background"@),
        no_newline("面板边框颜色"@),
        no_newline("Panel border color"@),
        no_newline("panel_border"@),
        no_newline("额度类型文字颜色"@),
        no_newline("Quota-type text color"@),
        no_newline("quota_type"@),
        no_newline("剩余额度文字颜色"@),
        no_newline("Remaining-quota text color"@),
        no_newline("remaining"@),
        no_newline("重置时间文字颜色"@),
        no_newline("Reset-time text color"@),
        no_newline("reset_time"@),
        no_newline("异常状态文字颜色"@),
        no_newline("Error-state text color"@),
        no_newline("error"@),
        no_newline("充足额度颜色"@),
        no_newline("High-quota color"@),
        no_newline("progress_high"@),
        no_newline("中等额度颜色"@),
        no_newline("Medium-quota color"@),
        no_newline("progress_medium"@),
        no_newline("低额度颜色"@),
        no_newline("Low-quota color"@),
        no_newline("progress_low"@),
        no_newline("已消耗部分颜色"@),
        no_newline("Consumed-progress color"@),
        no_newline("progress_consumed"@),
        no_newline("拖拽点颜色"@),
        no_newline("Drag-handle color"@),
        no_newline("drag_handle"@),
{
    reveal_strlit("面板背景颜色");
    reveal_strlit("Panel background color");
    reveal_strlit("panel_background");
    reveal_strlit("面板边框颜色");
    reveal_strlit("Panel border color");
    reveal_strlit("panel_border");
    reveal_strlit("额度类型文字颜色");
    reveal_strlit("Quota-type text color");
    reveal_strlit("quota_type");
    reveal_strlit("剩余额度文字颜色");
    reveal_strlit("Remaining-quota text color");
    reveal_strlit("remaining");
    reveal_strlit("重置时间文字颜色");
    reveal_strlit("Reset-time text color");
    reveal_strlit("reset_time");
    reveal_strlit("异常状态文字颜色");
    reveal_strlit("Error-state text color");
    reveal_strlit("error");
    reveal_strlit("充足额度颜色");
    reveal_strlit("High-quota color");
    reveal_strlit("progress_high");
    reveal_strlit("中等额度颜色");
    reveal_strlit("Medium-quota color");
    reveal_strlit("progress_medium");
    reveal_strlit("低额度颜色");
    reveal_strlit("Low-quota color");
    reveal_strlit("progress_low");
    reveal_strlit("已消耗部分颜色");
    reveal_strlit("Consumed-progress color");
    reveal_strlit("progress_consumed");
    reveal_strlit("拖拽点颜色");
    reveal_strlit("Drag-handle color");
    reveal_strlit("drag_handle");
}

/// Law: in the JSONC text of a theme style every line that is not empty
/// starts with the indent, and the text ends with the closing quote of the
/// last value, not with an empty line.
#[verifier::rlimit(50)]
pub proof fn lemma_theme_jsonc_layout(e: EditableStyleView, zh: bool, indent: nat)
    ensures
        lines_indented(theme_jsonc_text(e, zh, indent), pad_text(indent)),
        theme_jsonc_text(e, zh, indent).len() > 0,
        theme_jsonc_text(e, zh, indent).last() == '"',
{
    let pad = pad_text(indent);
    assert(no_newline(pad));
    lemma_entry_literals();
    lemma_theme_literals();
    let c0 = loc(zh, "面板背景颜色"@, "Panel background color"@);
    lemma_color_entry_indented(pad, zh, c0, "panel_background"@, e.panel_background, true);
    let x0 = color_entry_text(pad, zh, c0, "panel_background"@, e.panel_background, true);
    let c1 = loc(zh, "面板边框颜色"@, "Panel border color"@);
    lemma_color_entry_indented(pad, zh, c1, "panel_border"@, e.panel_border, true);
    let x1 = color_entry_text(pad, zh, c1, "panel_border"@, e.panel_border, true);
    lemma_frosted_entry_indented(pad, zh, e.frosted_strength);
    let x2 = frosted_entry_text(pad, zh, e.frosted_strength);
    let c3 = loc(zh, "额度类型文字颜色"@, "Quota-type text color"@);
    lemma_color_entry_indented(pad, zh, c3, "quota_type"@, e.quota_type, true);
    let x3 = color_entry_text(pad, zh, c3, "quota_type"@, e.quota_type, true);
    let c4 = loc(zh, "剩余额度文字颜色"@, "Remaining-quota text color"@);
    lemma_color_entry_indented(pad, zh, c4, "remaining"@, e.remaining, true);
    let x4 = color_entry_text(pad, zh, c4, "remaining"@, e.remaining, true);
    let c5 = loc(zh, "重置时间文字颜色"@, "Reset-time text color"@);
    lemma_color_entry_indented(pad, zh, c5, "reset_time"@, e.reset_time, true);
    let x5 = color_entry_text(pad, zh, c5, "reset_time"@, e.reset_time, true);
    let c6 = loc(zh, "异常状态文字颜色"@, "Error-state text color"@);
    lemma_color_entry_indented(pad, zh, c6, "error"@, e.error, true);
    let x6 = color_entry_text(pad, zh, c6, "error"@, e.error, true);
    let c7 = loc(zh, "充足额度颜色"@, "High-quota color"@);
    lemma_color_entry_indented(pad, zh, c7, "progress_high"@, e.progress_high, true);
    let x7 = color_entry_text(pad, zh, c7, "progress_high"@, e.progress_high, true);
    let c8 = loc(zh, "中等额度颜色"@, "Medium-quota color"@);
    lemma_color_entry_indented(pad, zh, c8, "progress_medium"@, e.progress_medium, true);
    let x8 = color_entry_text(pad, zh, c8, "progress_medium"@, e.progress_medium, true);
    let c9 = loc(zh, "低额度颜色"@, "Low-quota color"@);
    lemma_color_entry_indented(pad, zh, c9, "progress_low"@, e.progress_low, true);
    let x9 = color_entry_text(pad, zh, c9, "progress_low"@, e.progress_low, true);
    let c10 = loc(zh, "已消耗部分颜色"@, "Consumed-progress color"@);
    lemma_color_entry_indented(pad, zh, c10, "progress_consumed"@, e.progress_consumed, true);
    let x10 = color_entry_text(pad, zh, c10, "progress_consumed"@, e.progress_consumed, true);
    let c11 = loc(zh, "拖拽点颜色"@, "Drag-handle color"@);
    lemma_color_entry_indented(pad, zh, c11, "drag_handle"@, e.drag_handle, false);
    let x11 = color_entry_text(pad, zh, c11, "drag_handle"@, e.drag_handle, false);
    let b_y1 = x0 + "\n\n"@;
    lemma_append_breaks(x0, "\n\n"@, pad);
    let y1 = b_y1 + x1;
    lemma_append_lines(b_y1, x1, pad);
    let b_y2 = y1 + "\n\n"@;
    lemma_append_breaks(y1, "\n\n"@, pad);
    let y2 = b_y2 + x2;
    lemma_append_lines(b_y2, x2, pad);
    let b_y3 = y2 + "\n\n"@;
    lemma_append_breaks(y2, "\n\n"@, pad);
    let y3 = b_y3 + x3;
    lemma_append_lines(b_y3, x3, pad);
    let b_y4 = y3 + "\n\n"@;
    lemma_append_breaks(y3, "\n\n"@, pad);
    let y4 = b_y4 + x4;
    lemma_append_lines(b_y4, x4, pad);
    let b_y5 = y4 + "\n\n"@;
    lemma_append_breaks(y4, "\n\n"@, pad);
    let y5 = b_y5 + x5;
    lemma_append_lines(b_y5, x5, pad);
    let b_y6 = y5 + "\n\n"@;
    lemma_append_breaks(y5, "\n\n"@, pad);
    let y6 = b_y6 + x6;
    lemma_append_lines(b_y6, x6, pad);
    let b_y7 = y6 + "\n\n"@;
    lemma_append_breaks(y6, "\n\n"@, pad);
    let y7 = b_y7 + x7;
    lemma_append_lines(b_y7, x7, pad);
    let b_y8 = y7 + "\n\n"@;
    lemma_append_breaks(y7, "\n\n"@, pad);
    let y8 = b_y8 + x8;
    lemma_append_lines(b_y8, x8, pad);
    let b_y9 = y8 + "\n\n"@;
    lemma_append_breaks(y8, "\n\n"@, pad);
    let y9 = b_y9 + x9;
    lemma_append_lines(b_y9, x9, pad);
    let b_y10 = y9 + "\n\n"@;
    lemma_append_breaks(y9, "\n\n"@, pad);
    let y10 = b_y10 + x10;
    lemma_append_lines(b_y10, x10, pad);
    let b_y11 = y10 + "\n\n"@;
    lemma_append_breaks(y10, "\n\n"@, pad);
    let y11 = b_y11 + x11;
    lemma_append_lines(b_y11, x11, pad);
    assert(y11 == theme_jsonc_text(e, zh, indent));
    assert(y11.last() == x11.last());
}

/// The key of the `j`th entry of a theme style's JSONC text, in field order.
pub open spec fn theme_key(j: int) -> Seq<char> {
    if j == 0 {
        "panel_background"@
    } else if j == 1 {
        "panel_border"@
    } else if j == 2 {
        "frosted_strength"@
    } else if j == 3 {
        "quota_type"@
    } else if j == 4 {
        "remaining"@
    } else if j == 5 {
        "reset_time"@
    } else if j == 6 {
        "error"@
    } else if j == 7 {
        "progress_high"@
    } else if j == 8 {
        "progress_medium"@
    } else if j == 9 {
        "progress_low"@
    } else if j == 10 {
        "progress_consumed"@
    } else {
        "drag_handle"@
    }
}

/// The comment above the `j`th entry.
pub open spec fn theme_comment(zh: bool, j: int) -> Seq<char> {
    if j == 0 {
        loc(zh, "面板背景颜色"@, "Panel background color"@)
    } else if j == 1 {
        loc(zh, "面板边框颜色"@, "Panel border color"@)
    } else if j == 2 {
        loc(zh, "磨砂强度"@, "Frosted intensity"@)
    } else if j == 3 {
        loc(zh, "额度类型文字颜色"@, "Quota-type text color"@)
    } else if j == 4 {
        loc(zh, "剩余额度文字颜色"@, "Remaining-quota text color"@)
    } else if j == 5 {
        loc(zh, "重置时间文字颜色"@, "Reset-time text color"@)
    } else if j == 6 {
        loc(zh, "异常状态文字颜色"@, "Error-state text color"@)
    } else if j == 7 {
        loc(zh, "充足额度颜色"@, "High-quota color"@)
    } else if j == 8 {
        loc(zh, "中等额度颜色"@, "Medium-quota color"@)
    } else if j == 9 {
        loc(zh, "低额度颜色"@, "Low-quota color"@)
    } else if j == 10 {
        loc(zh, "已消耗部分颜色"@, "Consumed-progress color"@)
    } else {
        loc(zh, "拖拽点颜色"@, "Drag-handle color"@)
    }
}

/// The hint below the comment of the `j`th entry: the range of the frosted
/// strength, the colour format for every other entry.
pub open spec fn theme_hint(zh: bool, j: int) -> Seq<char> {
    if j == 2 {
        loc(zh, "范围：0–100"@, "Range: 0–100"@)
    } else {
        loc(zh, "格式：#RRGGBB 或 #RRGGBBAA"@, "Format: #RRGGBB or #RRGGBBAA"@)
    }
}

/// The colour text of the `j`th entry (the frosted strength, entry 2, is a
/// number and has none).
pub open spec fn theme_field(e: EditableStyleView, j: int) -> Seq<char> {
    if j == 0 {
        e.panel_background
    } else if j == 1 {
        e.panel_border
    } else if j == 2 {
        Seq::empty()
    } else if j == 3 {
        e.quota_type
    } else if j == 4 {
        e.remaining
    } else if j == 5 {
        e.reset_time
    } else if j == 6 {
        e.error
    } else if j == 7 {
        e.progress_high
    } else if j == 8 {
        e.progress_medium
    } else if j == 9 {
        e.progress_low
    } else if j == 10 {
        e.progress_consumed
    } else {
        e.drag_handle
    }
}

/// The value of the `j`th entry as it stands in the text.
pub open spec fn theme_value(e: EditableStyleView, j: int) -> Seq<char> {
    if j == 2 {
        decimal(e.frosted_strength as nat)
    } else {
        json_quoted(theme_field(e, j))
    }
}

/// The comma after every entry but the last.
pub open spec fn entry_comma(j: int) -> Seq<char> {
    if j < 11 {
        ","@
    } else {
        ""@
    }
}

/// Line `i` of a theme style's JSONC text: each entry takes four lines (its
/// comment, its hint, its key and value, and a blank line), and the last has
/// no blank line after it.
pub open spec fn theme_line(e: EditableStyleView, zh: bool, pad: Seq<char>, i: int) -> Seq<char> {
    let j = i / 4;
    if i % 4 == 0 {
        pad + "// "@ + theme_comment(zh, j)
    } else if i % 4 == 1 {
        pad + "// "@ + theme_hint(zh, j)
    } else if i % 4 == 2 {
        pad + "\""@ + theme_key(j) + "\": "@ + theme_value(e, j) + entry_comma(j)
    } else {
        Seq::empty()
    }
}

/// The lines of a theme style's JSONC text.
pub open spec fn theme_lines(e: EditableStyleView, zh: bool, indent: nat) -> Seq<Seq<char>> {
    Seq::new(47, |i: int| theme_line(e, zh, pad_text(indent), i))
}

/// The lines joined by newlines.
pub open spec fn join_lines(lines: Seq<Seq<char>>) -> Seq<char>
    decreases lines.len(),
{
    if lines.len() <= 1 {
        if lines.len() == 0 {
            Seq::empty()
        } else {
            lines[0]
        }
    } else {
        join_lines(lines.drop_last()) + seq!['\n'] + lines.last()
    }
}

proof fn lemma_join_take(lines: Seq<Seq<char>>, n: int)
    requires
        1 <= n < lines.len(),
    ensures
        join_lines(lines.take(n + 1)) == join_lines(lines.take(n)) + seq!['\n'] + lines[n],
{
    assert(lines.take(n + 1).drop_last() =~= lines.take(n));
}

/// The `j`th entry of the text.
pub open spec fn theme_entry(e: EditableStyleView, zh: bool, pad: Seq<char>, j: int) -> Seq<char> {
    if j == 2 {
        frosted_entry_text(pad, zh, e.frosted_strength)
    } else {
        color_entry_text(pad, zh, theme_comment(zh, j), theme_key(j), theme_field(e, j), j < 11)
    }
}

/// The entries up to the `k`th, separated by blank lines.
pub open spec fn theme_prefix(e: EditableStyleView, zh: bool, pad: Seq<char>, k: nat) -> Seq<char>
    decreases k,
{
    if k == 0 {
        theme_entry(e, zh, pad, 0)
    } else {
        theme_prefix(e, zh, pad, (k - 1) as nat) + "\n\n"@ + theme_entry(e, zh, pad, k as int)
    }
}

proof fn lemma_theme_entry_lines(e: EditableStyleView, zh: bool, pad: Seq<char>, j: int)
    requires
        0 <= j < 12,
    ensures
        theme_entry(e, zh, pad, j) == theme_line(e, zh, pad, 4 * j) + seq!['\n'] + theme_line(
            e,
            zh,
            pad,
            4 * j + 1,
        ) + seq!['\n'] + theme_line(e, zh, pad, 4 * j + 2),
{
    lemma_entry_literals();
    assert("\n"@ =~= seq!['\n']);
    assert((4 * j) / 4 == j && (4 * j) % 4 == 0);
    assert((4 * j + 1) / 4 == j && (4 * j + 1) % 4 == 1);
    assert((4 * j + 2) / 4 == j && (4 * j + 2) % 4 == 2);
    reveal(color_entry_text);
    reveal(frosted_entry_text);
}

proof fn lemma_blank_then_entry(p: Seq<char>, b: Seq<char>, c: Seq<char>, d: Seq<char>)
    ensures
        p + seq!['\n'] + Seq::<char>::empty() + seq!['\n'] + b + seq!['\n'] + c + seq!['\n'] + d == p
            + "\n\n"@ + (b + seq!['\n'] + c + seq!['\n'] + d),
{
    lemma_entry_literals();
    assert(p + seq!['\n'] + Seq::<char>::empty() + seq!['\n'] + b + seq!['\n'] + c + seq!['\n'] + d =~= p
        + "\n\n"@ + (b + seq!['\n'] + c + seq!['\n'] + d));
}

proof fn lemma_prefix_lines(e: EditableStyleView, zh: bool, indent: nat, k: int)
    requires
        0 <= k < 12,
    ensures
        join_lines(theme_lines(e, zh, indent).take(4 * k + 3)) == theme_prefix(e, zh, pad_text(indent), k as nat),
    decreases k,
{
    let pad = pad_text(indent);
    let lines = theme_lines(e, zh, indent);
    lemma_theme_entry_lines(e, zh, pad, k);
    if k == 0 {
        assert(join_lines(lines.take(1)) == lines[0]);
        lemma_join_take(lines, 1);
        lemma_join_take(lines, 2);
    } else {
        lemma_prefix_lines(e, zh, indent, k - 1);
        let n = 4 * k - 1;
        lemma_join_take(lines, n);
        lemma_join_take(lines, n + 1);
        lemma_join_take(lines, n + 2);
        lemma_join_take(lines, n + 3);
        assert(n % 4 == 3);
        assert(lines[n] == Seq::<char>::empty());
        assert(n + 1 == 4 * k && n + 2 == 4 * k + 1 && n + 3 == 4 * k + 2);
        lemma_blank_then_entry(
            theme_prefix(e, zh, pad, (k - 1) as nat),
            lines[4 * k],
            lines[4 * k + 1],
            lines[4 * k + 2],
        );
    }
}

proof fn lemma_line_literals()
    ensures
        "\""@ =~= seq!['"'],
        "// "@ =~= seq!['/', '/', ' '],
        ","@ =~= seq![','],
{
    reveal_strlit("\"");
    reveal_strlit("// ");
    reveal_strlit(",");
}

proof fn lemma_theme_texts_no_newline(zh: bool, j: int)
    requires
        0 <= j < 12,
    ensures
        no_newline(theme_comment(zh, j)),
        no_newline(theme_hint(zh, j)),
        no_newline(theme_key(j)),
{
    lemma_entry_literals();
    lemma_theme_literals();
    lemma_frosted_literals();
}

proof fn lemma_theme_keys_distinct()
    ensures
        forall|j: int, k: int| 0 <= j < k < 12 ==> theme_key(j) != theme_key(k),
{
    reveal_strlit("panel_background");
    reveal_strlit("panel_border");
    reveal_strlit("frosted_strength");
    reveal_strlit("quota_type");
    reveal_strlit("remaining");
    reveal_strlit("reset_time");
    reveal_strlit("error");
    reveal_strlit("progress_high");
    reveal_strlit("progress_medium");
    reveal_strlit("progress_low");
    reveal_strlit("progress_consumed");
    reveal_strlit("drag_handle");
    assert forall|j: int, k: int| 0 <= j < k < 12 implies theme_key(j) != theme_key(k) by {
        let a = theme_key(j);
        let b = theme_key(k);
        if a.len() == b.len() {
            if a[0] == b[0] {
                if a[1] == b[1] {
                    assert(a[2] != b[2] || a[3] != b[3] || a[4] != b[4] || a[5] != b[5] || a[6] != b[6]
                        || a[7] != b[7] || a[8] != b[8] || a[9] != b[9]);
                }
            }
        }
    }
}

proof fn lemma_theme_line_facts(e: EditableStyleView, zh: bool, pad: Seq<char>, i: int)
    requires
        0 <= i < 47,
        no_newline(pad),
    ensures
        no_newline(theme_line(e, zh, pad, i)),
        theme_line(e, zh, pad, i).len() == 0 <==> i % 4 == 3,
        i % 4 < 2 ==> (pad + "// "@).is_prefix_of(theme_line(e, zh, pad, i)),
        (pad + "\""@).is_prefix_of(theme_line(e, zh, pad, i)) <==> i % 4 == 2,
        i % 4 == 2 ==> (theme_line(e, zh, pad, i).last() == ',' <==> i / 4 < 11),
{
    let j = i / 4;
    let t = theme_line(e, zh, pad, i);
    let p = pad.len() as int;
    lemma_line_literals();
    lemma_entry_literals();
    lemma_theme_texts_no_newline(zh, j);
    lemma_no_newline_add(pad, "// "@);
    lemma_no_newline_add(pad, "\""@);
    if i % 4 < 2 {
        let x = if i % 4 == 0 {
            theme_comment(zh, j)
        } else {
            theme_hint(zh, j)
        };
        assert(t == pad + "// "@ + x);
        lemma_no_newline_add(pad + "// "@, x);
        assert(t.subrange(0, p + 3) =~= pad + "// "@);
        assert(t[p] == '/');
        if (pad + "\""@).is_prefix_of(t) {
            assert(t.subrange(0, p + 1)[p] == (pad + "\""@)[p]);
        }
    } else if i % 4 == 2 {
        let v = theme_value(e, j);
        let c = entry_comma(j);
        if j == 2 {
            crate::text::lemma_decimal_digits(e.frosted_strength as nat);
            crate::text::lemma_decimal_len_pos(e.frosted_strength as nat);
            assert(no_newline(v));
        } else {
            lemma_json_quoted_no_newline(theme_field(e, j));
        }
        assert(no_newline(c));
        let a1 = pad + "\""@;
        let a2 = a1 + theme_key(j);
        let a3 = a2 + "\": "@;
        let a4 = a3 + v;
        lemma_no_newline_add(a1, theme_key(j));
        lemma_no_newline_add(a2, "\": "@);
        lemma_no_newline_add(a3, v);
        lemma_no_newline_add(a4, c);
        assert(t == a4 + c);
        assert(t.subrange(0, p + 1) =~= a1);
        if j < 11 {
            assert(t.last() == ',');
        } else {
            assert(c.len() == 0);
            assert(t =~= a4);
            assert(a4.last() == v.last());
        }
    } else {
        assert(t.len() == 0);
    }
}

/// Law: the JSONC text of a theme style is its lines joined by newlines.
/// There are 47 of them, none holding a newline: for each of the 12 entries,
/// in field order, a comment line and a hint line that start with the indent
/// and `// `, then the line of its key and value, which starts with the
/// indent and a quote and ends with a comma except for the last entry; a
/// blank line follows every entry but the last. Only the key lines start with
/// the indent and a quote, and no key is used twice.
#[verifier::rlimit(60)]
pub proof fn lemma_theme_jsonc_lines(e: EditableStyleView, zh: bool, indent: nat)
    ensures
        theme_jsonc_text(e, zh, indent) == join_lines(theme_lines(e, zh, indent)),
        theme_lines(e, zh, indent).len() == 47,
        forall|i: int| 0 <= i < 47 ==> no_newline(#[trigger] theme_lines(e, zh, indent)[i]),
        forall|i: int|
            0 <= i < 47 ==> ((#[trigger] theme_lines(e, zh, indent)[i]).len() == 0 <==> i % 4 == 3),
        forall|i: int|
            0 <= i < 47 && i % 4 < 2 ==> (pad_text(indent) + "// "@).is_prefix_of(
                #[trigger] theme_lines(e, zh, indent)[i],
            ),
        forall|i: int|
            0 <= i < 47 ==> ((pad_text(indent) + "\""@).is_prefix_of(
                #[trigger] theme_lines(e, zh, indent)[i],
            ) <==> i % 4 == 2),
        forall|j: int|
            0 <= j < 12 ==> #[trigger] theme_lines(e, zh, indent)[4 * j + 2] == pad_text(indent)
                + "\""@ + theme_key(j) + "\": "@ + theme_value(e, j) + entry_comma(j),
        forall|j: int|
            0 <= j < 12 ==> ((#[trigger] theme_lines(e, zh, indent)[4 * j + 2]).last() == ','
                <==> j < 11),
        forall|j: int, k: int| 0 <= j < k < 12 ==> theme_key(j) != theme_key(k),
{
    let pad = pad_text(indent);
    let lines = theme_lines(e, zh, indent);
    assert(no_newline(pad));
    reveal_with_fuel(theme_prefix, 12);
    assert(theme_jsonc_text(e, zh, indent) == theme_prefix(e, zh, pad, 11));
    lemma_prefix_lines(e, zh, indent, 11);
    assert(lines.take(47) =~= lines);
    assert forall|i: int| 0 <= i < 47 implies {
        &&& no_newline(#[trigger] lines[i])
        &&& (lines[i].len() == 0 <==> i % 4 == 3)
        &&& (i % 4 < 2 ==> (pad + "// "@).is_prefix_of(lines[i]))
        &&& ((pad + "\""@).is_prefix_of(lines[i]) <==> i % 4 == 2)
        &&& (i % 4 == 2 ==> (lines[i].last() == ',' <==> i / 4 < 11))
    } by {
        lemma_theme_line_facts(e, zh, pad, i);
    }
    assert forall|j: int| 0 <= j < 12 implies #[trigger] lines[4 * j + 2] == pad + "\""@ + theme_key(j)
        + "\": "@ + theme_value(e, j) + entry_comma(j) && (lines[4 * j + 2].last() == ',' <==> j < 11) by {
        assert((4 * j + 2) / 4 == j && (4 * j + 2) % 4 == 2);
        lemma_theme_line_facts(e, zh, pad, 4 * j + 2);
    }
    lemma_theme_keys_distinct();
}

/// Appends a commented colour entry.
fn push_color_jsonc(
    out: &mut String,
    pad: &str,
    zh: bool,
    comment: &str,
    key: &str,
    value: &str,
    comma: bool,
)
    ensures
        final(out)@ == old(out)@ + color_entry_text(pad@, zh, comment@, key@, value@, comma),
{
    let quoted = quote_json(value);
    push_str(out, pad);
    push_str(out, "// ");
    push_str(out, comment);
    push_str(out, "\n");
    push_str(out, pad);
    push_str(out, "// ");
    push_str(out, localized(zh, "格式：#RRGGBB 或 #RRGGBBAA", "Format: #RRGGBB or #RRGGBBAA"));
    push_str(out, "\n");
    push_str(out, pad);
    push_str(out, "\"");
    push_str(out, key);
    push_str(out, "\": ");
    push_str(out, quoted.as_str());
    push_str(out, if comma { "," } else { "" });
    proof {
        reveal(color_entry_text);
    }
    let ghost whole = color_entry_text(pad@, zh, comment@, key@, value@, comma);
    assert(final(out)@ =~= old(out)@ + whole);
}

/// Appends the commented frosted-strength entry.
#[verifier::spinoff_prover]
#[verifier::rlimit(40)]
fn push_frosted_jsonc(out: &mut String, pad: &str, zh: bool, strength: u8)
    ensures
        final(out)@ == old(out)@ + frosted_entry_text(pad@, zh, strength),
{
    push_str(out, pad);
    push_str(out, "// ");
    push_str(out, localized(zh, "磨砂强度", "Frosted intensity"));
    push_str(out, "\n");
    push_str(out, pad);
    push_str(out, "// ");
    push_str(out, localized(zh, "范围：0–100", "Range: 0–100"));
    push_str(out, "\n");
    push_str(out, pad);
    push_str(out, "\"");
    push_str(out, "frosted_strength");
    push_str(out, "\": ");
    push_decimal(out, strength as u64);
    push_str(out, ",");
    proof {
        reveal(frosted_entry_text);
    }
    assert(final(out)@ =~= old(out)@ + frosted_entry_text(pad@, zh, strength));
}

fn spaces(indent: usize) -> (s: String)
    ensures
        s@ == pad_text(indent as nat),
{
    let mut s = String::new();
    let mut k: usize = 0;
    while k < indent
        invariant
            k <= indent,
            s@ == pad_text(k as nat),
        decreases indent - k,
    {
        push_char(&mut s, ' ');
        assert(pad_text(k as nat).push(' ') =~= pad_text((k + 1) as nat));
        k = k + 1;
    }
    s
}

/// The commented JSONC body of an editable theme style.
pub fn theme_jsonc(style: &EditableThemeStyle, zh: bool, indent: usize) -> (t: String)
    ensures
        t@ == theme_jsonc_text(style@, zh, indent as nat),
{
    let pad_string = spaces(indent);
    let pad = pad_string.as_str();
    let mut out = String::new();
    push_color_jsonc(&mut out, pad, zh, localized(zh, "面板背景颜色", "Panel background color"), "panel_background", style.panel_background.as_str(), true);
    push_str(&mut out, "\n\n");
    push_color_jsonc(&mut out, pad, zh, localized(zh, "面板边框颜色", "Panel border color"), "panel_border", style.panel_border.as_str(), true);
    push_str(&mut out, "\n\n");
    push_frosted_jsonc(&mut out, pad, zh, style.frosted_strength);
    push_str(&mut out, "\n\n");
    push_color_jsonc(&mut out, pad, zh, localized(zh, "额度类型文字颜色", "Quota-type text color"), "quota_type", style.quota_type.as_str(), true);
    push_str(&mut out, "\n\n");
    push_color_jsonc(&mut out, pad, zh, localized(zh, "剩余额度文字颜色", "Remaining-quota text color"), "remaining", style.remaining.as_str(), true);
    push_str(&mut out, "\n\n");
    push_color_jsonc(&mut out, pad, zh, localized(zh, "重置时间文字颜色", "Reset-time text color"), "reset_time", style.reset_time.as_str(), true);
    push_str(&mut out, "\n\n");
    push_color_jsonc(&mut out, pad, zh, localized(zh, "异常状态文字颜色", "Error-state text color"), "error", style.error.as_str(), true);
    push_str(&mut out, "\n\n");
    push_color_jsonc(&mut out, pad, zh, localized(zh, "充足额度颜色", "High-quota color"), "progress_high", style.progress_high.as_str(), true);
    push_str(&mut out, "\n\n");
    push_color_jsonc(&mut out, pad, zh, localized(zh, "中等额度颜色", "Medium-quota color"), "progress_medium", style.progress_medium.as_str(), true);
    push_str(&mut out, "\n\n");
    push_color_jsonc(&mut out, pad, zh, localized(zh, "低额度颜色", "Low-quota color"), "progress_low", style.progress_low.as_str(), true);
    push_str(&mut out, "\n\n");
    push_color_jsonc(&mut out, pad, zh, localized(zh, "已消耗部分颜色", "Consumed-progress color"), "progress_consumed", style.progress_consumed.as_str(), true);
    push_str(&mut out, "\n\n");
    push_color_jsonc(&mut out, pad, zh, localized(zh, "拖拽点颜色", "Drag-handle color"), "drag_handle", style.drag_handle.as_str(), false);
    assert(out@ =~= Seq::<char>::empty() + theme_jsonc_text(style@, zh, indent as nat));
    out
}

/// The commented JSONC text of editable settings, in Chinese or English.
pub open spec fn jsonc_text(s: SettingsView, zh: bool) -> Seq<char> {
    "{\n  // "@
        + loc(zh, "常规设置"@, "General settings"@)
        + "\n  \"general\": {\n    // "@
        + loc(zh, "自动刷新额度数据的时间间隔"@, "Automatic usage refresh interval"@)
        + "\n    // "@
        + loc(zh, "可选：1m | 5m | 15m | 1h"@, "Options: 1m | 5m | 15m | 1h"@)
        + "\n    \"refresh_interval\": "@
        + json_quoted(s.general.refresh_interval)
        + ",\n\n    // "@
        + loc(zh, "任务栏组件中显示的额度类型"@, "Quota types shown in the taskbar widget"@)
        + "\n    \"show_usage\": {\n      // "@
        + loc(zh, "是否显示 5 小时额度"@, "Show the 5-hour quota"@)
        + "\n      // "@
        + loc(zh, "可选：true | false"@, "Options: true | false"@)
        + "; "@
        + loc(zh, "5 小时额度和每周额度至少开启一个"@, "at least one quota must stay enabled"@)
        + "\n      \"session_5h\": "@
        + bool_text(s.general.show_usage.session_5h)
        + ",\n\n      // "@
        + loc(zh, "是否显示每周额度"@, "Show the weekly quota"@)
        + "\n      // "@
        + loc(zh, "可选：true | false"@, "Options: true | false"@)
        + "; "@
        + loc(zh, "5 小时额度和每周额度至少开启一个"@, "at least one quota must stay enabled"@)
        + "\n      \"weekly\": "@
        + bool_text(s.general.show_usage.weekly)
        + "\n    },\n\n    // "@
        + loc(zh, "剩余额度达到阈值时发送提醒；0 表示关闭"@, "Notify when remaining quota reaches the threshold; 0 disables alerts"@)
        + "\n    // "@
        + loc(zh, "可选：0 | 10 | 20 | 30"@, "Options: 0 | 10 | 20 | 30"@)
        + "\n    \"quota_alert_percent\": "@
        + decimal(s.general.quota_alert_percent as nat)
        + ",\n\n    // "@
        + loc(zh, "是否随 Windows 启动"@, "Start with Windows"@)
        + "\n    // "@
        + loc(zh, "可选：true | false"@, "Options: true | false"@)
        + "\n    \"start_with_windows\": "@
        + bool_text(s.general.start_with_windows)
        + ",\n\n    // "@
        + loc(zh, "界面语言"@, "UI language"@)
        + "\n    // "@
        + loc(zh, "可选：system | en | nl | es | fr | de | ja | ko | zh-CN | zh-TW | ru | pt-BR"@, "Options: system | en | nl | es | fr | de | ja | ko | zh-CN | zh-TW | ru | pt-BR"@)
        + "\n    \"language\": "@
        + json_quoted(s.general.language)
        + "\n  },\n\n  // "@
        + loc(zh, "外观设置"@, "Appearance settings"@)
        + "\n  \"appearance\": {\n    // "@
        + loc(zh, "主题模式"@, "Theme mode"@)
        + "\n    // "@
        + loc(zh, "可选：system | dark | light"@, "Options: system | dark | light"@)
        + "\n    \"theme\": "@
        + json_quoted(s.appearance.theme)
        + ",\n\n    // "@
        + loc(zh, "组件排版"@, "Widget layout"@)
        + "\n    // "@
        + loc(zh, "可选：default | minimal"@, "Options: default | minimal"@)
        + "\n    \"layout\": "@
        + json_quoted(s.appearance.layout)
        + ",\n\n    // "@
        + loc(zh, "深色主题可编辑样式"@, "Editable dark-theme style"@)
        + "\n    \"dark\": {\n"@
        + theme_jsonc_text(s.appearance.dark, zh, 6)
        + "\n    },\n\n    // "@
        + loc(zh, "浅色主题可编辑样式"@, "Editable light-theme style"@)
        + "\n    \"light\": {\n"@
        + theme_jsonc_text(s.appearance.light, zh, 6)
        + "\n    }\n  },\n\n  // "@
        + loc(zh, "公开配置结构版本"@, "Public configuration schema version"@)
        + "\n  // "@
        + loc(zh, "固定值：1"@, "Fixed value: 1"@)
        + "\n  \"schema_version\": "@
        + decimal(s.schema_version as nat)
        + "\n}\n"@
}

/// `x` stands somewhere in `t`.
pub open spec fn occurs_in(t: Seq<char>, x: Seq<char>) -> bool {
    exists|p: Seq<char>, q: Seq<char>| t == p + x + q
}

proof fn lemma_occurs_grows(x: Seq<char>)
    ensures
        forall|t: Seq<char>, y: Seq<char>| occurs_in(t, x) ==> #[trigger] occurs_in(t + y, x),
{
    assert forall|t: Seq<char>, y: Seq<char>| occurs_in(t, x) implies #[trigger] occurs_in(t + y, x) by {
        let (p, q) = choose|p: Seq<char>, q: Seq<char>| t == p + x + q;
        assert(t + y =~= p + x + (q + y));
    }
}

proof fn lemma_occurs_at_end(k: Seq<char>, v: Seq<char>, n: Seq<char>)
    ensures
        forall|p: Seq<char>| #[trigger] occurs_in(p + k + v + n, k + v + n),
{
    assert forall|p: Seq<char>| #[trigger] occurs_in(p + k + v + n, k + v + n) by {
        assert(p + k + v + n =~= p + (k + v + n) + Seq::<char>::empty());
    }
}

/// Law: the JSONC text holds every field of the settings under its own key,
/// followed by that field's value: each setting, the `session_5h` and `weekly`
/// flags, both theme styles and the schema version, each value written as
/// JSON (quoted text, `true` or `false`, a decimal number, or the style's
/// entries), with the line break or comma that ends it.
pub proof fn lemma_jsonc_holds_every_field(s: SettingsView, zh: bool)
    ensures
        occurs_in(jsonc_text(s, zh), "\n    \"refresh_interval\": "@ + json_quoted(s.general.refresh_interval) + ",\n\n    // "@),
        occurs_in(jsonc_text(s, zh), "\n      \"session_5h\": "@ + bool_text(s.general.show_usage.session_5h) + ",\n\n      // "@),
        occurs_in(jsonc_text(s, zh), "\n      \"weekly\": "@ + bool_text(s.general.show_usage.weekly) + "\n    },\n\n    // "@),
        occurs_in(jsonc_text(s, zh), "\n    \"quota_alert_percent\": "@ + decimal(s.general.quota_alert_percent as nat) + ",\n\n    // "@),
        occurs_in(jsonc_text(s, zh), "\n    \"start_with_windows\": "@ + bool_text(s.general.start_with_windows) + ",\n\n    // "@),
        occurs_in(jsonc_text(s, zh), "\n    \"language\": "@ + json_quoted(s.general.language) + "\n  },\n\n  // "@),
        occurs_in(jsonc_text(s, zh), "\n    \"theme\": "@ + json_quoted(s.appearance.theme) + ",\n\n    // "@),
        occurs_in(jsonc_text(s, zh), "\n    \"layout\": "@ + json_quoted(s.appearance.layout) + ",\n\n    // "@),
        occurs_in(jsonc_text(s, zh), "\n    \"dark\": {\n"@ + theme_jsonc_text(s.appearance.dark, zh, 6) + "\n    },\n\n    // "@),
        occurs_in(jsonc_text(s, zh), "\n    \"light\": {\n"@ + theme_jsonc_text(s.appearance.light, zh, 6) + "\n    }\n  },\n\n  // "@),
        occurs_in(jsonc_text(s, zh), "\n  \"schema_version\": "@ + decimal(s.schema_version as nat) + "\n}\n"@),
{
    lemma_occurs_grows("\n    \"refresh_interval\": "@ + json_quoted(s.general.refresh_interval) + ",\n\n    // "@);
    lemma_occurs_at_end("\n    \"refresh_interval\": "@, json_quoted(s.general.refresh_interval), ",\n\n    // "@);
    lemma_occurs_grows("\n      \"session_5h\": "@ + bool_text(s.general.show_usage.session_5h) + ",\n\n      // "@);
    lemma_occurs_at_end("\n      \"session_5h\": "@, bool_text(s.general.show_usage.session_5h), ",\n\n      // "@);
    lemma_occurs_grows("\n      \"weekly\": "@ + bool_text(s.general.show_usage.weekly) + "\n    },\n\n    // "@);
    lemma_occurs_at_end("\n      \"weekly\": "@, bool_text(s.general.show_usage.weekly), "\n    },\n\n    // "@);
    lemma_occurs_grows("\n    \"quota_alert_percent\": "@ + decimal(s.general.quota_alert_percent as nat) + ",\n\n    // "@);
    lemma_occurs_at_end("\n    \"quota_alert_percent\": "@, decimal(s.general.quota_alert_percent as nat), ",\n\n    // "@);
    lemma_occurs_grows("\n    \"start_with_windows\": "@ + bool_text(s.general.start_with_windows) + ",\n\n    // "@);
    lemma_occurs_at_end("\n    \"start_with_windows\": "@, bool_text(s.general.start_with_windows), ",\n\n    // "@);
    lemma_occurs_grows("\n    \"language\": "@ + json_quoted(s.general.language) + "\n  },\n\n  // "@);
    lemma_occurs_at_end("\n    \"language\": "@, json_quoted(s.general.language), "\n  },\n\n  // "@);
    lemma_occurs_grows("\n    \"theme\": "@ + json_quoted(s.appearance.theme) + ",\n\n    // "@);
    lemma_occurs_at_end("\n    \"theme\": "@, json_quoted(s.appearance.theme), ",\n\n    // "@);
    lemma_occurs_grows("\n    \"layout\": "@ + json_quoted(s.appearance.layout) + ",\n\n    // "@);
    lemma_occurs_at_end("\n    \"layout\": "@, json_quoted(s.appearance.layout), ",\n\n    // "@);
    lemma_occurs_grows("\n    \"dark\": {\n"@ + theme_jsonc_text(s.appearance.dark, zh, 6) + "\n    },\n\n    // "@);
    lemma_occurs_at_end("\n    \"dark\": {\n"@, theme_jsonc_text(s.appearance.dark, zh, 6), "\n    },\n\n    // "@);
    lemma_occurs_grows("\n    \"light\": {\n"@ + theme_jsonc_text(s.appearance.light, zh, 6) + "\n    }\n  },\n\n  // "@);
    lemma_occurs_at_end("\n    \"light\": {\n"@, theme_jsonc_text(s.appearance.light, zh, 6), "\n    }\n  },\n\n  // "@);
    lemma_occurs_grows("\n  \"schema_version\": "@ + decimal(s.schema_version as nat) + "\n}\n"@);
    lemma_occurs_at_end("\n  \"schema_version\": "@, decimal(s.schema_version as nat), "\n}\n"@);
}

impl EditableSettings {
    /// The settings as commented JSONC: every field with a description and its
    /// allowed values, in Simplified Chinese for that language and in English
    /// otherwise.
    pub fn to_jsonc(&self, language: LanguageId) -> (t: String)
        ensures
            t@ == jsonc_text(self@, language == LanguageId::SimplifiedChinese),
    {
        let zh = language == LanguageId::SimplifiedChinese;
        let dark_json = theme_jsonc(&self.appearance.dark, zh, 6);
        let light_json = theme_jsonc(&self.appearance.light, zh, 6);
        let mut out = to_string("{\n  // ");
        push_str(&mut out, localized(zh, "常规设置", "General settings"));
        push_str(&mut out, "\n  \"general\": {\n    // ");
        push_str(&mut out, localized(zh, "自动刷新额度数据的时间间隔", "Automatic usage refresh interval"));
        push_str(&mut out, "\n    // ");
        push_str(&mut out, localized(zh, "可选：1m | 5m | 15m | 1h", "Options: 1m | 5m | 15m | 1h"));
        push_str(&mut out, "\n    \"refresh_interval\": ");
        push_str(&mut out, quote_json(self.general.refresh_interval.as_str()).as_str());
        push_str(&mut out, ",\n\n    // ");
        push_str(&mut out, localized(zh, "任务栏组件中显示的额度类型", "Quota types shown in the taskbar widget"));
        push_str(&mut out, "\n    \"show_usage\": {\n      // ");
        push_str(&mut out, localized(zh, "是否显示 5 小时额度", "Show the 5-hour quota"));
        push_str(&mut out, "\n      // ");
        push_str(&mut out, localized(zh, "可选：true | false", "Options: true | false"));
        push_str(&mut out, "; ");
        push_str(&mut out, localized(zh, "5 小时额度和每周额度至少开启一个", "at least one quota must stay enabled"));
        push_str(&mut out, "\n      \"session_5h\": ");
        push_str(&mut out, bool_str(self.general.show_usage.session_5h));
        push_str(&mut out, ",\n\n      // ");
        push_str(&mut out, localized(zh, "是否显示每周额度", "Show the weekly quota"));
        push_str(&mut out, "\n      // ");
        push_str(&mut out, localized(zh, "可选：true | false", "Options: true | false"));
        push_str(&mut out, "; ");
        push_str(&mut out, localized(zh, "5 小时额度和每周额度至少开启一个", "at least one quota must stay enabled"));
        push_str(&mut out, "\n      \"weekly\": ");
        push_str(&mut out, bool_str(self.general.show_usage.weekly));
        push_str(&mut out, "\n    },\n\n    // ");
        push_str(&mut out, localized(zh, "剩余额度达到阈值时发送提醒；0 表示关闭", "Notify when remaining quota reaches the threshold; 0 disables alerts"));
        push_str(&mut out, "\n    // ");
        push_str(&mut out, localized(zh, "可选：0 | 10 | 20 | 30", "Options: 0 | 10 | 20 | 30"));
        push_str(&mut out, "\n    \"quota_alert_percent\": ");
        push_decimal(&mut out, self.general.quota_alert_percent as u64);
        push_str(&mut out, ",\n\n    // ");
        push_str(&mut out, localized(zh, "是否随 Windows 启动", "Start with Windows"));
        push_str(&mut out, "\n    // ");
        push_str(&mut out, localized(zh, "可选：true | false", "Options: true | false"));
        push_str(&mut out, "\n    \"start_with_windows\": ");
        push_str(&mut out, bool_str(self.general.start_with_windows));
        push_str(&mut out, ",\n\n    // ");
        push_str(&mut out, localized(zh, "界面语言", "UI language"));
        push_str(&mut out, "\n    // ");
        push_str(&mut out, localized(zh, "可选：system | en | nl | es | fr | de | ja | ko | zh-CN | zh-TW | ru | pt-BR", "Options: system | en | nl | es | fr | de | ja | ko | zh-CN | zh-TW | ru | pt-BR"));
        push_str(&mut out, "\n    \"language\": ");
        push_str(&mut out, quote_json(self.general.language.as_str()).as_str());
        push_str(&mut out, "\n  },\n\n  // ");
        push_str(&mut out, localized(zh, "外观设置", "Appearance settings"));
        push_str(&mut out, "\n  \"appearance\": {\n    // ");
        push_str(&mut out, localized(zh, "主题模式", "Theme mode"));
        push_str(&mut out, "\n    // ");
        push_str(&mut out, localized(zh, "可选：system | dark | light", "Options: system | dark | light"));
        push_str(&mut out, "\n    \"theme\": ");
        push_str(&mut out, quote_json(self.appearance.theme.as_str()).as_str());
        push_str(&mut out, ",\n\n    // ");
        push_str(&mut out, localized(zh, "组件排版", "Widget layout"));
        push_str(&mut out, "\n    // ");
        push_str(&mut out, localized(zh, "可选：default | minimal", "Options: default | minimal"));
        push_str(&mut out, "\n    \"layout\": ");
        push_str(&mut out, quote_json(self.appearance.layout.as_str()).as_str());
        push_str(&mut out, ",\n\n    // ");
        push_str(&mut out, localized(zh, "深色主题可编辑样式", "Editable dark-theme style"));
        push_str(&mut out, "\n    \"dark\": {\n");
        push_str(&mut out, dark_json.as_str());
        push_str(&mut out, "\n    },\n\n    // ");
        push_str(&mut out, localized(zh, "浅色主题可编辑样式", "Editable light-theme style"));
        push_str(&mut out, "\n    \"light\": {\n");
        push_str(&mut out, light_json.as_str());
        push_str(&mut out, "\n    }\n  },\n\n  // ");
        push_str(&mut out, localized(zh, "公开配置结构版本", "Public configuration schema version"));
        push_str(&mut out, "\n  // ");
        push_str(&mut out, localized(zh, "固定值：1", "Fixed value: 1"));
        push_str(&mut out, "\n  \"schema_version\": ");
        push_decimal(&mut out, self.schema_version as u64);
        push_str(&mut out, "\n}\n");
        assert(out@ =~= jsonc_text(self@, zh));
        out
    }
}

} // verus!
