use vstd::prelude::*;

use crate::color::{all_ascii, hex_cut_panics, is_ascii_char, lemma_ascii_hex_never_panics, parse_color, Color};
use crate::language::LanguageId;
use crate::settings_model::is_hex_digit;
use crate::color::hex_rgba_text;
use crate::style::{with_color_text, StyleColorTarget, StyleSettings, StyleView, ThemePreset, FROSTED_STRENGTH_MAX};
use crate::text::{chars_of, string_from_chars, trim, trim_bounds};

verus! {

/// A rectangle: left and top inclusive, right and bottom exclusive.
#[derive(Clone, Copy, Debug, PartialEq, Eq, Structural)]
pub struct Rect {
    pub left: i32,
    pub top: i32,
    pub right: i32,
    pub bottom: i32,
}

/// Whether the point lies inside the rectangle.
pub open spec fn contains_point(r: Rect, x: int, y: int) -> bool {
    r.left <= x < r.right && r.top <= y < r.bottom
}

/// Whether the point `(x, y)` lies inside `rect`.
pub fn pt_in_rect(rect: Rect, x: i32, y: i32) -> (b: bool)
    ensures
        b == contains_point(rect, x as int, y as int),
{
    x >= rect.left && x < rect.right && y >= rect.top && y < rect.bottom
}

/// `n / 96` rounded toward zero.
pub open spec fn div96_toward_zero(n: int) -> int {
    if n >= 0 {
        n / 96
    } else {
        -((-n) / 96)
    }
}

/// A length at 96 DPI scaled to `dpi`: `(value * dpi + 48) / 96`, the
/// quotient rounded toward zero, as a 32-bit value.
pub open spec fn window_scaled(value: i32, dpi: u32) -> i32 {
    div96_toward_zero(value * dpi + 48) as i32
}

/// Scales a length designed at 96 DPI to the window's DPI.
pub fn scale(value: i32, dpi: u32) -> (v: i32)
    ensures
        v == window_scaled(value, dpi),
{
    let v64 = value as i64;
    let d64 = dpi as i64;
    assert(-0x7FFF_FFFF_8000_0000 <= v64 * d64 <= 0x7FFF_FFFF_8000_0000) by (nonlinear_arith)
        requires
            -0x8000_0000 <= v64 <= 0x7FFF_FFFF,
            0 <= d64 <= 0xFFFF_FFFF,
    ;
    let n: i64 = v64 * d64 + 48;
    let q: i64 = if n >= 0 {
        n / 96
    } else {
        -((-n) / 96)
    };
    #[verifier::truncate]
    (q as i32)
}

/// The DPI used for layout: the window's, at least 96.
pub fn effective_dpi(raw: u32) -> (d: u32)
    ensures
        d == if raw < 96 {
            96
        } else {
            raw
        },
{
    if raw < 96 {
        96
    } else {
        raw
    }
}

/// A rectangle given at 96 DPI, scaled to `dpi`.
pub fn rect(dpi: u32, left: i32, top: i32, right: i32, bottom: i32) -> (r: Rect)
    ensures
        r == (Rect {
            left: window_scaled(left, dpi),
            top: window_scaled(top, dpi),
            right: window_scaled(right, dpi),
            bottom: window_scaled(bottom, dpi),
        }),
{
    Rect {
        left: scale(left, dpi),
        top: scale(top, dpi),
        right: scale(right, dpi),
        bottom: scale(bottom, dpi),
    }
}

/// The signed 16-bit value of the low 16 bits of `v`.
pub open spec fn signed16(v: int) -> int {
    if v >= 0x8000 {
        v - 0x10000
    } else {
        v
    }
}

/// The client coordinates packed into a mouse message parameter: the low word
/// is x and the next word y, each a signed 16-bit value.
pub fn point_from_lparam(lparam: isize) -> (p: (i32, i32))
    ensures
        p.0 == signed16((lparam & 0xFFFF) as int),
        p.1 == signed16(((lparam >> 16) & 0xFFFF) as int),
{
    let lo: isize = lparam & 0xFFFF;
    let hi: isize = (lparam >> 16) & 0xFFFF;
    assert(0 <= lo <= 0xFFFF) by (bit_vector)
        requires
            lo == lparam & 0xFFFF,
    ;
    assert(0 <= hi <= 0xFFFF) by (bit_vector)
        requires
            hi == (lparam >> 16) & 0xFFFF,
    ;
    let x: i32 = if lo >= 0x8000 {
        lo as i32 - 0x10000
    } else {
        lo as i32
    };
    let y: i32 = if hi >= 0x8000 {
        hi as i32 - 0x10000
    } else {
        hi as i32
    };
    (x, y)
}

/// Index of a colour setting in editor order.
pub open spec fn color_target_index(t: StyleColorTarget) -> nat {
    match t {
        StyleColorTarget::PanelBackground => 0,
        StyleColorTarget::PanelBorder => 1,
        StyleColorTarget::QuotaType => 2,
        StyleColorTarget::Remaining => 3,
        StyleColorTarget::ResetTime => 4,
        StyleColorTarget::Error => 5,
        StyleColorTarget::ProgressHigh => 6,
        StyleColorTarget::ProgressMedium => 7,
        StyleColorTarget::ProgressLow => 8,
        StyleColorTarget::ProgressConsumed => 9,
        StyleColorTarget::DragHandle => 10,
    }
}

/// The colour setting at position `i` (at most 10) in editor order.
pub open spec fn color_target_at(i: int) -> StyleColorTarget {
    if i == 0 {
        StyleColorTarget::PanelBackground
    } else if i == 1 {
        StyleColorTarget::PanelBorder
    } else if i == 2 {
        StyleColorTarget::QuotaType
    } else if i == 3 {
        StyleColorTarget::Remaining
    } else if i == 4 {
        StyleColorTarget::ResetTime
    } else if i == 5 {
        StyleColorTarget::Error
    } else if i == 6 {
        StyleColorTarget::ProgressHigh
    } else if i == 7 {
        StyleColorTarget::ProgressMedium
    } else if i == 8 {
        StyleColorTarget::ProgressLow
    } else if i == 9 {
        StyleColorTarget::ProgressConsumed
    } else {
        StyleColorTarget::DragHandle
    }
}

/// The colour setting at `value` in editor order.
pub fn decode_color_target(value: usize) -> (t: Option<StyleColorTarget>)
    ensures
        match t {
            Some(target) => color_target_index(target) == value,
            None => value > 10,
        },
        value <= 10 ==> t == Some(color_target_at(value as int)),
{
    match value {
        0 => Some(StyleColorTarget::PanelBackground),
        1 => Some(StyleColorTarget::PanelBorder),
        2 => Some(StyleColorTarget::QuotaType),
        3 => Some(StyleColorTarget::Remaining),
        4 => Some(StyleColorTarget::ResetTime),
        5 => Some(StyleColorTarget::Error),
        6 => Some(StyleColorTarget::ProgressHigh),
        7 => Some(StyleColorTarget::ProgressMedium),
        8 => Some(StyleColorTarget::ProgressLow),
        9 => Some(StyleColorTarget::ProgressConsumed),
        10 => Some(StyleColorTarget::DragHandle),
        _ => None,
    }
}

/// Position of a colour setting in editor order.
pub fn encode_color_target(target: StyleColorTarget) -> (v: usize)
    ensures
        v == color_target_index(target),
{
    match target {
        StyleColorTarget::PanelBackground => 0,
        StyleColorTarget::PanelBorder => 1,
        StyleColorTarget::QuotaType => 2,
        StyleColorTarget::Remaining => 3,
        StyleColorTarget::ResetTime => 4,
        StyleColorTarget::Error => 5,
        StyleColorTarget::ProgressHigh => 6,
        StyleColorTarget::ProgressMedium => 7,
        StyleColorTarget::ProgressLow => 8,
        StyleColorTarget::ProgressConsumed => 9,
        StyleColorTarget::DragHandle => 10,
    }
}

/// Law: decoding the position of a colour setting gives that setting.
pub proof fn lemma_color_target_round_trip(t: StyleColorTarget, u: StyleColorTarget)
    ensures
        color_target_index(t) <= 10,
        color_target_index(t) == color_target_index(u) ==> t == u,
{
}

/// Control identifier of the first hex input box.
pub const ID_EDIT_HEX_BASE: u16 = 320;

/// The colour setting edited in the hex input box with identifier
/// `control_id`.
pub fn target_from_hex_control_id(control_id: u16) -> (t: Option<StyleColorTarget>)
    ensures
        match t {
            Some(target) => control_id == ID_EDIT_HEX_BASE + color_target_index(target),
            None => control_id < ID_EDIT_HEX_BASE || control_id > ID_EDIT_HEX_BASE + 10,
        },
{
    if control_id < ID_EDIT_HEX_BASE {
        return None;
    }
    let index = (control_id - ID_EDIT_HEX_BASE) as usize;
    decode_color_target(index)
}

/// The 32-bit value of a colour packed red-low: red, green, blue, alpha bytes.
pub open spec fn packed_color_value(c: Color) -> int {
    c.r as int + c.g as int * 0x100 + c.b as int * 0x10000 + c.a as int * 0x1000000
}

/// A colour packed into a message parameter, red in the low byte.
pub fn pack_color(color: Color) -> (v: isize)
    ensures
        v as u32 == packed_color_value(color),
{
    let r = color.r as u32;
    let g = color.g as u32;
    let b = color.b as u32;
    let a = color.a as u32;
    let packed: u32 = r | (g << 8) | (b << 16) | (a << 24);
    assert(r | (g << 8) | (b << 16) | (a << 24) == r + g * 0x100 + b * 0x10000 + a * 0x1000000)
        by (bit_vector)
        requires
            r < 256 && g < 256 && b < 256 && a < 256,
    ;
    let v = packed as isize;
    assert(v as u32 == packed) by (bit_vector)
        requires
            v == packed as isize,
    ;
    v
}

/// The colour in a message parameter: red in the low byte of its low 32 bits,
/// then green, blue and alpha.
pub fn unpack_color(value: isize) -> (c: Color)
    ensures
        c.r as int == (value as u32) as int % 0x100,
        c.g as int == (value as u32) as int / 0x100 % 0x100,
        c.b as int == (value as u32) as int / 0x10000 % 0x100,
        c.a as int == (value as u32) as int / 0x1000000,
{
    let v = value as u32;
    let r = (v & 0xFF) as u8;
    let g = ((v >> 8) & 0xFF) as u8;
    let b = ((v >> 16) & 0xFF) as u8;
    let a = ((v >> 24) & 0xFF) as u8;
    assert((v & 0xFF) == v % 0x100 && ((v >> 8) & 0xFF) == v / 0x100 % 0x100 && ((v >> 16) & 0xFF)
        == v / 0x10000 % 0x100 && ((v >> 24) & 0xFF) == v / 0x1000000) by (bit_vector);
    Color::rgba(r, g, b, a)
}

/// The colour in the low 32 bits of a message parameter, red in the low byte.
pub open spec fn unpacked_color(value: isize) -> Color {
    let v = (value as u32) as int;
    Color {
        r: (v % 0x100) as u8,
        g: (v / 0x100 % 0x100) as u8,
        b: (v / 0x10000 % 0x100) as u8,
        a: (v / 0x1000000) as u8,
    }
}

/// A live preview sent by an open editor: a colour setting (by its position
/// in editor order) with a packed colour, or a raw frosted strength.
#[derive(Clone, Copy, Debug, PartialEq, Eq, Structural)]
pub enum StylePreview {
    Color(usize, isize),
    Blur(usize),
}

/// A theme style after a preview: the colour setting takes the previewed
/// colour (a position past the last setting changes nothing); the frosted
/// strength takes the low byte of the raw value, at most 100.
pub open spec fn style_after_preview(s: StyleView, preview: StylePreview) -> StyleView {
    match preview {
        StylePreview::Color(index, packed) => if index <= 10 {
            with_color_text(s, color_target_at(index as int), hex_rgba_text(unpacked_color(packed)))
        } else {
            s
        },
        StylePreview::Blur(raw) => {
            let low = raw as int % 0x100;
            StyleView {
                panel_frosted_strength: (if low < FROSTED_STRENGTH_MAX {
                    low
                } else {
                    FROSTED_STRENGTH_MAX as int
                }) as u8,
                ..s
            }
        },
    }
}

/// Applies an editor's live preview to the style of the current theme; the
/// other theme's style stays as it was.
pub fn apply_style_preview(styles: &mut StyleSettings, is_dark: bool, preview: StylePreview)
    ensures
        is_dark ==> final(styles).dark@ == style_after_preview(old(styles).dark@, preview)
            && final(styles).light == old(styles).light,
        !is_dark ==> final(styles).light@ == style_after_preview(old(styles).light@, preview)
            && final(styles).dark == old(styles).dark,
{
    match preview {
        StylePreview::Color(index, packed) => {
            match decode_color_target(index) {
                Some(target) => {
                    let color = unpack_color(packed);
                    styles.active_mut(is_dark).set_color(target, color);
                },
                None => {},
            }
        },
        StylePreview::Blur(raw) => {
            let low: u8 = (raw & 0xFF) as u8;
            assert((raw & 0xFF) as int == raw as int % 0x100) by (bit_vector);
            let style = styles.active_mut(is_dark);
            style.panel_frosted_strength = if low < FROSTED_STRENGTH_MAX {
                low
            } else {
                FROSTED_STRENGTH_MAX
            };
        },
    }
}

/// Law: unpacking a packed colour gives the colour back.
pub proof fn lemma_pack_unpack(c: Color, packed: isize)
    requires
        packed as u32 == packed_color_value(c),
    ensures
        (packed as u32) as int % 0x100 == c.r,
        (packed as u32) as int / 0x100 % 0x100 == c.g,
        (packed as u32) as int / 0x10000 % 0x100 == c.b,
        (packed as u32) as int / 0x1000000 == c.a,
{
    let v = packed_color_value(c);
    assert(v % 0x100 == c.r && v / 0x100 % 0x100 == c.g && v / 0x10000 % 0x100 == c.b && v
        / 0x1000000 == c.a) by (nonlinear_arith)
        requires
            v == c.r as int + c.g as int * 0x100 + c.b as int * 0x10000 + c.a as int * 0x1000000,
            0 <= c.r < 256,
            0 <= c.g < 256,
            0 <= c.b < 256,
            0 <= c.a < 256,
    ;
}

/// The digits of a hex input: trimmed, without one leading `#`.
pub open spec fn hex_input_digits(v: Seq<char>) -> Seq<char> {
    let t = trim(v);
    if t.len() > 0 && t[0] == '#' {
        t.drop_first()
    } else {
        t
    }
}

/// How a hex input box reads its text: an error unless it holds at most eight
/// hex digits (after an optional `#`); a colour for six or eight digits;
/// nothing yet for other lengths, while the user is still typing.
pub open spec fn hex_input_result(v: Seq<char>) -> Result<Option<Color>, ()> {
    let d = hex_input_digits(v);
    if d.len() > 8 || !(forall|k: int| 0 <= k < d.len() ==> is_hex_digit(#[trigger] d[k])) {
        Err(())
    } else if d.len() == 6 || d.len() == 8 {
        match parse_color(trim(v)) {
            Some(c) => Ok(Some(c)),
            None => Err(()),
        }
    } else {
        Ok(None)
    }
}

/// Reads the text of a hex input box.
pub fn parse_hex_input(value: &str) -> (r: Result<Option<Color>, ()>)
    ensures
        r == hex_input_result(value@),
{
    let chars = chars_of(value);
    let (start, end) = trim_bounds(&chars);
    let ghost t = trim(value@);
    let digits_start = if start < end && chars[start] == '#' {
        start + 1
    } else {
        start
    };
    let ghost d = hex_input_digits(value@);
    assert(d == chars@.subrange(digits_start as int, end as int));
    let count = end - digits_start;
    let mut all_hex = true;
    let mut k = digits_start;
    while k < end
        invariant
            digits_start <= k <= end <= chars.len(),
            d == chars@.subrange(digits_start as int, end as int),
            all_hex == forall|j: int| digits_start <= j < k ==> is_hex_digit(#[trigger] chars@[j]),
        decreases end - k,
    {
        let c = chars[k];
        all_hex = all_hex && (('0' <= c && c <= '9') || ('a' <= c && c <= 'f') || ('A' <= c && c
            <= 'F'));
        k = k + 1;
    }
    proof {
        if all_hex {
            assert forall|j: int| 0 <= j < d.len() implies is_hex_digit(#[trigger] d[j]) by {
                assert(d[j] == chars@[digits_start + j]);
            }
        } else {
            let j = choose|j: int| digits_start <= j < k && !is_hex_digit(#[trigger] chars@[j]);
            assert(d[j - digits_start] == chars@[j]);
        }
    }
    if count > 8 || !all_hex {
        return Err(());
    }
    if count == 6 || count == 8 {
        let mut trimmed: Vec<char> = Vec::new();
        let mut i = start;
        while i < end
            invariant
                start <= i <= end <= chars.len(),
                trimmed@ == chars@.subrange(start as int, i as int),
            decreases end - i,
        {
            trimmed.push(chars[i]);
            assert(chars@.subrange(start as int, i + 1) == chars@.subrange(start as int, i as int).push(
                chars@[i as int],
            ));
            i = i + 1;
        }
        let text = string_from_chars(&trimmed);
        proof {
            assert(text@ == t);
            assert forall|j: int| 0 <= j < t.len() implies is_ascii_char(#[trigger] t[j]) by {
                if j == 0 && t[0] == '#' {
                } else if t.len() > 0 && t[0] == '#' {
                    assert(t[j] == d[j - 1]);
                    assert(is_hex_digit(d[j - 1]));
                } else {
                    assert(t[j] == d[j]);
                    assert(is_hex_digit(d[j]));
                }
            }
            lemma_ascii_hex_never_panics(t);
        }
        return match Color::try_from_hex(text.as_str()) {
            Some(c) => Ok(Some(c)),
            None => Err(()),
        };
    }
    Ok(None)
}

/// The value of a slider at `x` on `track`, from 0 to `max`, rounded to the
/// nearest step.
pub open spec fn slider_value(track: Rect, x: int, max: u8) -> int {
    let width = if track.right - track.left < 1 {
        1
    } else {
        track.right - track.left
    };
    let clamped = if x < track.left {
        track.left as int
    } else if x > track.right {
        track.right as int
    } else {
        x
    };
    let pos = clamped - track.left;
    let v = (pos * max + width / 2) / width;
    if v < 0 {
        0
    } else if v > max {
        max as int
    } else {
        v
    }
}

/// The slider value at pixel `x` of `track`.
pub fn slider_value_from_x(track: Rect, x: i32, max: u8) -> (v: u8)
    requires
        track.left <= track.right,
        track.right - track.left <= i32::MAX,
    ensures
        v as int == slider_value(track, x as int, max),
        v <= max,
{
    let span: i32 = track.right - track.left;
    let width: i32 = if span < 1 {
        1
    } else {
        span
    };
    let clamped: i32 = if x < track.left {
        track.left
    } else if x > track.right {
        track.right
    } else {
        x
    };
    let pos: i64 = (clamped - track.left) as i64;
    assert(0 <= pos <= width);
    assert(0 <= pos * (max as i64) <= (width as i64) * 255) by (nonlinear_arith)
        requires
            0 <= pos <= width,
            0 <= max <= 255,
    ;
    let num: i64 = pos * (max as i64) + (width / 2) as i64;
    let q: i64 = num / (width as i64);
    let v: i64 = if q < 0 {
        0
    } else if q > max as i64 {
        max as i64
    } else {
        q
    };
    v as u8
}

/// The track of the colour slider for channel `channel_index` (red, green,
/// blue, alpha).
pub fn color_slider_track_rect(dpi: u32, channel_index: usize) -> (r: Rect)
    requires
        channel_index < 4,
    ensures
        r == (Rect {
            left: window_scaled(244, dpi),
            top: window_scaled((348 + channel_index * 32) as i32, dpi),
            right: window_scaled(676, dpi),
            bottom: window_scaled((352 + channel_index * 32) as i32, dpi),
        }),
{
    let top = 348 + channel_index as i32 * 32;
    rect(dpi, 244, top, 676, top + 4)
}

/// The area that grabs a colour slider: its track widened by 8 and heightened
/// by 10 pixels (at 96 DPI) on each side.
pub fn color_slider_hit_rect(dpi: u32, channel_index: usize) -> (r: Rect)
    requires
        channel_index < 4,
        dpi <= 96 * 1000,
    ensures
        ({
            let track = Rect {
                left: window_scaled(244, dpi),
                top: window_scaled((348 + channel_index * 32) as i32, dpi),
                right: window_scaled(676, dpi),
                bottom: window_scaled((352 + channel_index * 32) as i32, dpi),
            };
            r == Rect {
                left: (track.left - window_scaled(8, dpi)) as i32,
                top: (track.top - window_scaled(10, dpi)) as i32,
                right: (track.right + window_scaled(8, dpi)) as i32,
                bottom: (track.bottom + window_scaled(10, dpi)) as i32,
            }
        }),
{
    let track = color_slider_track_rect(dpi, channel_index);
    let dx = scale(8, dpi);
    let dy = scale(10, dpi);
    proof {
        lemma_window_scaled_bounds(8, dpi);
        lemma_window_scaled_bounds(10, dpi);
        lemma_window_scaled_bounds(244, dpi);
        lemma_window_scaled_bounds((348 + channel_index * 32) as i32, dpi);
        lemma_window_scaled_bounds(676, dpi);
        lemma_window_scaled_bounds((352 + channel_index * 32) as i32, dpi);
    }
    Rect {
        left: track.left - dx,
        top: track.top - dy,
        right: track.right + dx,
        bottom: track.bottom + dy,
    }
}

proof fn lemma_window_scaled_bounds(value: i32, dpi: u32)
    requires
        0 <= value <= 1000,
        dpi <= 96 * 1000,
    ensures
        0 <= window_scaled(value, dpi) <= 1000 * 1000 + 1,
        window_scaled(value, dpi) == (value * dpi + 48) / 96,
{
    assert(0 <= value * dpi <= 1000 * (96 * 1000)) by (nonlinear_arith)
        requires
            0 <= value <= 1000,
            0 <= dpi <= 96 * 1000,
    ;
}

/// Which slider a point grabs.
#[derive(Clone, Copy, Debug, PartialEq, Eq, Structural)]
pub enum SliderKind {
    Red,
    Green,
    Blue,
    Alpha,
    Blur,
}

/// The title above the preset cards of a theme.
pub fn preset_group_label(is_dark: bool, language: LanguageId) -> (s: &'static str)
    ensures
        s@ == match (language == LanguageId::SimplifiedChinese, is_dark) {
            (true, true) => "深色预设"@,
            (true, false) => "浅色预设"@,
            (false, true) => "Dark presets"@,
            (false, false) => "Light presets"@,
        },
{
    match (language == LanguageId::SimplifiedChinese, is_dark) {
        (true, true) => "深色预设",
        (true, false) => "浅色预设",
        (false, true) => "Dark presets",
        (false, false) => "Light presets",
    }
}

/// The name shown for a preset of a theme.
pub open spec fn preset_label_text(preset: ThemePreset, is_dark: bool, zh: bool) -> Seq<char> {
    match (zh, is_dark, preset) {
        (true, true, ThemePreset::Classic) => "石墨"@,
        (true, true, ThemePreset::Ocean) => "深海"@,
        (true, true, ThemePreset::Forest) => "松影"@,
        (false, true, ThemePreset::Classic) => "Graphite"@,
        (false, true, ThemePreset::Ocean) => "Deep Sea"@,
        (false, true, ThemePreset::Forest) => "Pine Shade"@,
        (true, false, ThemePreset::Classic) => "晨霜"@,
        (true, false, ThemePreset::Ocean) => "雾蓝"@,
        (true, false, ThemePreset::Forest) => "暖砂"@,
        (false, false, ThemePreset::Classic) => "Morning Frost"@,
        (false, false, ThemePreset::Ocean) => "Mist Blue"@,
        (false, false, ThemePreset::Forest) => "Warm Sand"@,
    }
}

/// The name shown for `preset` of the dark or light theme.
pub fn preset_label(preset: ThemePreset, is_dark: bool, language: LanguageId) -> (s: &'static str)
    ensures
        s@ == preset_label_text(preset, is_dark, language == LanguageId::SimplifiedChinese),
{
    match (language == LanguageId::SimplifiedChinese, is_dark, preset) {
        (true, true, ThemePreset::Classic) => "石墨",
        (true, true, ThemePreset::Ocean) => "深海",
        (true, true, ThemePreset::Forest) => "松影",
        (false, true, ThemePreset::Classic) => "Graphite",
        (false, true, ThemePreset::Ocean) => "Deep Sea",
        (false, true, ThemePreset::Forest) => "Pine Shade",
        (true, false, ThemePreset::Classic) => "晨霜",
        (true, false, ThemePreset::Ocean) => "雾蓝",
        (true, false, ThemePreset::Forest) => "暖砂",
        (false, false, ThemePreset::Classic) => "Morning Frost",
        (false, false, ThemePreset::Ocean) => "Mist Blue",
        (false, false, ThemePreset::Forest) => "Warm Sand",
    }
}

} // verus!
