use vstd::prelude::*;

use crate::appearance::AppearancePreset;
use crate::text::chars_of;
use crate::color::{hex_cut_panics, hex_rgba_text, Color};
use crate::language::LanguageId;
use crate::style::{
    color_of_text, color_text, with_color_text, StyleColorTarget, ThemeMode, ThemePreset, ThemeStyle,
    FROSTED_STRENGTH_MAX,
};
use crate::style_editor::{
    color_target_index, decode_color_target, encode_color_target, hex_input_result, parse_hex_input,
    color_slider_hit_rect, color_slider_track_rect, slider_value, slider_value_from_x, contains_point, pt_in_rect, rect, scale, window_scaled, Rect, SliderKind,
};

verus! {

/// The largest DPI the editor layout takes (a thousand times 96).
pub const MAX_EDITOR_DPI: u32 = 96000;

/// A page of the settings window.
#[derive(Clone, Copy, Debug, PartialEq, Eq, Structural)]
pub enum Section {
    General,
    Preset,
    Panel,
    Text,
    Progress,
    Interaction,
    Json,
}

/// The setting a row of the style editor edits.
#[derive(Clone, Copy, Debug, PartialEq, Eq, Structural)]
pub enum EditorSelection {
    Color(StyleColorTarget),
    Blur,
}

/// A button of the settings page that exchanges the settings as JSON.
#[derive(Clone, Copy, Debug, PartialEq, Eq, Structural)]
pub enum JsonAction {
    Reload,
    Format,
    Import,
    Export,
    Apply,
}

/// What a click in the settings window lands on.
#[derive(Clone, Copy, Debug, PartialEq, Eq, Structural)]
pub enum HitTarget {
    Theme(ThemeMode),
    Layout(AppearancePreset),
    Preset(ThemePreset),
    Section(Section),
    Row(EditorSelection),
    Refresh(u32),
    UsageSession,
    UsageWeekly,
    Alert(u8),
    Startup,
    Json(JsonAction),
    Reset,
    Close,
}

/// A length at 96 DPI at `dpi`, for the non-negative lengths of the layout.
pub open spec fn sw(v: int, dpi: int) -> int {
    (v * dpi + 48) / 96
}

/// `r` is the rectangle given at 96 DPI scaled to `dpi`.
pub open spec fn rect_at(r: Rect, dpi: int, left: int, top: int, right: int, bottom: int) -> bool {
    &&& 0 <= r.left <= 2_000_001
    &&& 0 <= r.top <= 2_000_001
    &&& 0 <= r.right <= 2_000_001
    &&& 0 <= r.bottom <= 2_000_001
    &&& r.left == sw(left, dpi)
    &&& r.top == sw(top, dpi)
    &&& r.right == sw(right, dpi)
    &&& r.bottom == sw(bottom, dpi)
}

proof fn lemma_sw(v: i32, dpi: u32)
    requires
        0 <= v <= 2000,
        dpi <= MAX_EDITOR_DPI,
    ensures
        window_scaled(v, dpi) == sw(v as int, dpi as int),
        0 <= sw(v as int, dpi as int) <= 2_000_001,
{
    assert(0 <= v * dpi <= 2000 * 96000) by (nonlinear_arith)
        requires
            0 <= v <= 2000,
            0 <= dpi <= 96000,
    ;
}

/// `rect(dpi, ..)` for lengths of the layout.
fn layout_rect_at(dpi: u32, left: i32, top: i32, right: i32, bottom: i32) -> (r: Rect)
    requires
        dpi <= MAX_EDITOR_DPI,
        0 <= left <= 2000,
        0 <= top <= 2000,
        0 <= right <= 2000,
        0 <= bottom <= 2000,
    ensures
        rect_at(r, dpi as int, left as int, top as int, right as int, bottom as int),
        0 <= r.left <= 2_000_001,
        0 <= r.top <= 2_000_001,
        0 <= r.right <= 2_000_001,
        0 <= r.bottom <= 2_000_001,
{
    proof {
        lemma_sw(left, dpi);
        lemma_sw(top, dpi);
        lemma_sw(right, dpi);
        lemma_sw(bottom, dpi);
    }
    rect(dpi, left, top, right, bottom)
}

/// A layout length at `dpi`.
fn layout_scale(value: i32, dpi: u32) -> (v: i32)
    requires
        dpi <= MAX_EDITOR_DPI,
        0 <= value <= 2000,
    ensures
        v == sw(value as int, dpi as int),
        0 <= v <= 2_000_001,
{
    proof {
        lemma_sw(value, dpi);
    }
    scale(value, dpi)
}

/// Position of a style page in the section list, for the pages listed there.
pub open spec fn section_index(section: Section) -> Option<int> {
    match section {
        Section::Preset => Some(0),
        Section::Panel => Some(1),
        Section::Text => Some(2),
        Section::Progress => Some(3),
        Section::Interaction => Some(4),
        _ => None,
    }
}

/// The button of a style page in the section list; the general and JSON pages
/// have none there.
pub fn section_rect(dpi: u32, section: Section) -> (r: Option<Rect>)
    requires
        dpi <= MAX_EDITOR_DPI,
    ensures
        match section_index(section) {
            Some(i) => r is Some && rect_at(r.unwrap(), dpi as int, 20, 108 + i * 48, 142, 148 + i * 48),
            None => r is None,
        },
{
    let index: i32 = match section {
        Section::Preset => 0,
        Section::Panel => 1,
        Section::Text => 2,
        Section::Progress => 3,
        Section::Interaction => 4,
        _ => {
            return None;
        },
    };
    Some(layout_rect_at(dpi, 20, 108 + index * 48, 142, 148 + index * 48))
}

/// Position of a theme mode among the theme buttons.
pub open spec fn theme_index(mode: ThemeMode) -> int {
    match mode {
        ThemeMode::System => 0,
        ThemeMode::Dark => 1,
        ThemeMode::Light => 2,
    }
}

/// The button of a theme mode.
pub fn theme_rect(dpi: u32, mode: ThemeMode) -> (r: Rect)
    requires
        dpi <= MAX_EDITOR_DPI,
    ensures
        rect_at(
            r,
            dpi as int,
            170 + theme_index(mode) * 112,
            50,
            274 + theme_index(mode) * 112,
            84,
        ),
{
    let index: i32 = match mode {
        ThemeMode::System => 0,
        ThemeMode::Dark => 1,
        ThemeMode::Light => 2,
    };
    layout_rect_at(dpi, 170 + index * 112, 50, 274 + index * 112, 84)
}

/// Position of a layout among the layout buttons.
pub open spec fn layout_index(preset: AppearancePreset) -> int {
    match preset {
        AppearancePreset::Compact => 0,
        AppearancePreset::Minimal => 1,
    }
}

/// The button of a layout.
pub fn layout_rect(dpi: u32, preset: AppearancePreset) -> (r: Rect)
    requires
        dpi <= MAX_EDITOR_DPI,
    ensures
        rect_at(r, dpi as int, 540 + layout_index(preset) * 104, 50, 636 + layout_index(preset) * 104, 84),
{
    let index: i32 = match preset {
        AppearancePreset::Compact => 0,
        AppearancePreset::Minimal => 1,
    };
    layout_rect_at(dpi, 540 + index * 104, 50, 636 + index * 104, 84)
}

/// Position of a preset among the preset cards.
pub open spec fn preset_index(preset: ThemePreset) -> int {
    match preset {
        ThemePreset::Classic => 0,
        ThemePreset::Ocean => 1,
        ThemePreset::Forest => 2,
    }
}

/// The card of a colour preset.
pub fn preset_card_rect(dpi: u32, preset: ThemePreset) -> (r: Rect)
    requires
        dpi <= MAX_EDITOR_DPI,
    ensures
        rect_at(r, dpi as int, 174 + preset_index(preset) * 204, 146, 366 + preset_index(preset) * 204, 350),
{
    let index: i32 = match preset {
        ThemePreset::Classic => 0,
        ThemePreset::Ocean => 1,
        ThemePreset::Forest => 2,
    };
    let left = 174 + index * 204;
    layout_rect_at(dpi, left, 146, left + 192, 350)
}

/// The button that resets the current theme.
pub fn reset_rect(dpi: u32) -> (r: Rect)
    requires
        dpi <= MAX_EDITOR_DPI,
    ensures
        rect_at(r, dpi as int, 20, 488, 176, 528),
{
    layout_rect_at(dpi, 20, 488, 176, 528)
}

/// The button that closes the window.
pub fn close_rect(dpi: u32) -> (r: Rect)
    requires
        dpi <= MAX_EDITOR_DPI,
    ensures
        rect_at(r, dpi as int, 690, 488, 786, 528),
{
    layout_rect_at(dpi, 690, 488, 786, 528)
}

/// The box around the colour editor.
pub fn editor_box_rect(dpi: u32) -> (r: Rect)
    requires
        dpi <= MAX_EDITOR_DPI,
    ensures
        rect_at(r, dpi as int, 174, 326, 786, 472),
{
    layout_rect_at(dpi, 174, 326, 786, 472)
}

/// The rows of a style page, top to bottom.
pub open spec fn section_rows(section: Section) -> Seq<EditorSelection> {
    match section {
        Section::Panel => seq![
            EditorSelection::Color(StyleColorTarget::PanelBackground),
            EditorSelection::Color(StyleColorTarget::PanelBorder),
            EditorSelection::Blur,
        ],
        Section::Text => seq![
            EditorSelection::Color(StyleColorTarget::QuotaType),
            EditorSelection::Color(StyleColorTarget::Remaining),
            EditorSelection::Color(StyleColorTarget::ResetTime),
            EditorSelection::Color(StyleColorTarget::Error),
        ],
        Section::Progress => seq![
            EditorSelection::Color(StyleColorTarget::ProgressHigh),
            EditorSelection::Color(StyleColorTarget::ProgressMedium),
            EditorSelection::Color(StyleColorTarget::ProgressLow),
            EditorSelection::Color(StyleColorTarget::ProgressConsumed),
        ],
        Section::Interaction => seq![EditorSelection::Color(StyleColorTarget::DragHandle)],
        _ => seq![],
    }
}

/// The rows of a style page.
pub fn rows(section: Section) -> (v: Vec<EditorSelection>)
    ensures
        v@ == section_rows(section),
{
    let v = match section {
        Section::Panel => vec![
            EditorSelection::Color(StyleColorTarget::PanelBackground),
            EditorSelection::Color(StyleColorTarget::PanelBorder),
            EditorSelection::Blur,
        ],
        Section::Text => vec![
            EditorSelection::Color(StyleColorTarget::QuotaType),
            EditorSelection::Color(StyleColorTarget::Remaining),
            EditorSelection::Color(StyleColorTarget::ResetTime),
            EditorSelection::Color(StyleColorTarget::Error),
        ],
        Section::Progress => vec![
            EditorSelection::Color(StyleColorTarget::ProgressHigh),
            EditorSelection::Color(StyleColorTarget::ProgressMedium),
            EditorSelection::Color(StyleColorTarget::ProgressLow),
            EditorSelection::Color(StyleColorTarget::ProgressConsumed),
        ],
        Section::Interaction => vec![EditorSelection::Color(StyleColorTarget::DragHandle)],
        _ => Vec::new(),
    };
    assert(v@ =~= section_rows(section));
    v
}

/// Row `index` of a style page.
pub fn row_rect(dpi: u32, index: usize) -> (r: Rect)
    requires
        dpi <= MAX_EDITOR_DPI,
        index < 4,
    ensures
        rect_at(r, dpi as int, 174, 108 + index * 48, 786, 148 + index * 48),
{
    let i = index as i32;
    layout_rect_at(dpi, 174, 108 + i * 48, 786, 148 + i * 48)
}

/// The row of a page that edits colour `target`, if it has one.
pub fn color_row_index(section: Section, target: StyleColorTarget) -> (index: Option<usize>)
    ensures
        match index {
            Some(i) => i < section_rows(section).len() && section_rows(section)[i as int]
                == EditorSelection::Color(target) && forall|j: int|
                0 <= j < i ==> section_rows(section)[j] != EditorSelection::Color(target),
            None => forall|j: int|
                0 <= j < section_rows(section).len() ==> section_rows(section)[j]
                    != EditorSelection::Color(target),
        },
{
    let v = rows(section);
    let mut i: usize = 0;
    while i < v.len()
        invariant
            v@ == section_rows(section),
            i <= v@.len(),
            forall|j: int| 0 <= j < i ==> section_rows(section)[j] != EditorSelection::Color(target),
        decreases v.len() - i,
    {
        if v[i] == EditorSelection::Color(target) {
            return Some(i);
        }
        i = i + 1;
    }
    None
}

/// The track of the frosted-strength slider.
pub fn blur_slider_track_rect(dpi: u32) -> (r: Rect)
    requires
        dpi <= MAX_EDITOR_DPI,
    ensures
        rect_at(r, dpi as int, 292, 224, 646, 228),
{
    layout_rect_at(dpi, 292, 224, 646, 228)
}

/// The area that grabs the frosted-strength slider: its track widened by 8
/// and heightened by 12 pixels (at 96 DPI) on each side.
pub open spec fn blur_slider_hit(dpi: int) -> Rect {
    Rect {
        left: (sw(292, dpi) - sw(8, dpi)) as i32,
        top: (sw(224, dpi) - sw(12, dpi)) as i32,
        right: (sw(646, dpi) + sw(8, dpi)) as i32,
        bottom: (sw(228, dpi) + sw(12, dpi)) as i32,
    }
}

/// The area that grabs the frosted-strength slider.
pub fn blur_slider_hit_rect(dpi: u32) -> (r: Rect)
    requires
        dpi <= MAX_EDITOR_DPI,
    ensures
        r == blur_slider_hit(dpi as int),
{
    let track = blur_slider_track_rect(dpi);
    let dx = layout_scale(8, dpi);
    let dy = layout_scale(12, dpi);
    Rect { left: track.left - dx, top: track.top - dy, right: track.right + dx, bottom: track.bottom + dy }
}

/// The frame of the frosted-strength input.
pub fn blur_edit_frame_rect(dpi: u32) -> (r: Rect)
    requires
        dpi <= MAX_EDITOR_DPI,
    ensures
        rect_at(r, dpi as int, 654, 210, 714, 238),
{
    layout_rect_at(dpi, 654, 210, 714, 238)
}

/// A frame shrunk by 3 pixels (at 96 DPI) on each side: the input inside it.
fn inset_by_three(frame: Rect, dpi: u32) -> (r: Rect)
    requires
        dpi <= MAX_EDITOR_DPI,
        0 <= frame.left <= 0x1000_0000,
        0 <= frame.top <= 0x1000_0000,
        0 <= frame.right <= 0x1000_0000,
        0 <= frame.bottom <= 0x1000_0000,
    ensures
        r.left == frame.left + sw(3, dpi as int),
        r.top == frame.top + sw(3, dpi as int),
        r.right == frame.right - sw(3, dpi as int),
        r.bottom == frame.bottom - sw(3, dpi as int),
{
    let d = layout_scale(3, dpi);
    Rect { left: frame.left + d, top: frame.top + d, right: frame.right - d, bottom: frame.bottom - d }
}

/// The frosted-strength input inside its frame.
pub fn blur_edit_rect(dpi: u32) -> (r: Rect)
    requires
        dpi <= MAX_EDITOR_DPI,
    ensures
        r.left == sw(654, dpi as int) + sw(3, dpi as int),
        r.top == sw(210, dpi as int) + sw(3, dpi as int),
        r.right == sw(714, dpi as int) - sw(3, dpi as int),
        r.bottom == sw(238, dpi as int) - sw(3, dpi as int),
{
    let frame = blur_edit_frame_rect(dpi);
    inset_by_three(frame, dpi)
}

/// The frame of the hex input on row `row_index`: at the row's right end, 120
/// pixels wide (at 96 DPI), 6 pixels inside the row vertically.
pub fn hex_edit_frame_rect(dpi: u32, row_index: usize) -> (r: Rect)
    requires
        dpi <= MAX_EDITOR_DPI,
        row_index < 4,
    ensures
        r.left == sw(786, dpi as int) - sw(132, dpi as int),
        r.top == sw(108 + row_index * 48, dpi as int) + sw(6, dpi as int),
        r.right == sw(786, dpi as int) - sw(12, dpi as int),
        r.bottom == sw(148 + row_index * 48, dpi as int) - sw(6, dpi as int),
{
    let row = row_rect(dpi, row_index);
    let a = layout_scale(132, dpi);
    let b = layout_scale(6, dpi);
    let c = layout_scale(12, dpi);
    Rect { left: row.right - a, top: row.top + b, right: row.right - c, bottom: row.bottom - b }
}

/// The hex input on row `row_index`, inside its frame.
pub fn hex_edit_rect(dpi: u32, row_index: usize) -> (r: Rect)
    requires
        dpi <= MAX_EDITOR_DPI,
        row_index < 4,
    ensures
        r.left == sw(786, dpi as int) - sw(132, dpi as int) + sw(3, dpi as int),
        r.top == sw(108 + row_index * 48, dpi as int) + sw(6, dpi as int) + sw(3, dpi as int),
        r.right == sw(786, dpi as int) - sw(12, dpi as int) - sw(3, dpi as int),
        r.bottom == sw(148 + row_index * 48, dpi as int) - sw(6, dpi as int) - sw(3, dpi as int),
{
    let frame = hex_edit_frame_rect(dpi, row_index);
    proof {
        lemma_sw(786, dpi);
        lemma_sw(132, dpi);
        lemma_sw(12, dpi);
        lemma_sw(6, dpi);
        lemma_sw((108 + row_index * 48) as i32, dpi);
        lemma_sw((148 + row_index * 48) as i32, dpi);
        assert(sw(132, dpi as int) <= sw(786, dpi as int)) by (nonlinear_arith)
            requires
                0 <= dpi,
        ;
        assert(sw(12, dpi as int) <= sw(786, dpi as int)) by (nonlinear_arith)
            requires
                0 <= dpi,
        ;
        assert(sw(6, dpi as int) <= sw(148 + row_index * 48, dpi as int)) by (nonlinear_arith)
            requires
                0 <= dpi,
                0 <= row_index,
        ;
    }
    inset_by_three(frame, dpi)
}

/// The frame of the numeric input of colour channel `channel_index`.
pub fn numeric_edit_frame_rect(dpi: u32, channel_index: usize) -> (r: Rect)
    requires
        dpi <= MAX_EDITOR_DPI,
        channel_index < 4,
    ensures
        rect_at(r, dpi as int, 690, 334 + channel_index * 32, 764, 360 + channel_index * 32),
{
    let top = 334 + channel_index as i32 * 32;
    layout_rect_at(dpi, 690, top, 764, top + 26)
}

/// The numeric input of colour channel `channel_index`, inside its frame.
pub fn numeric_edit_rect(dpi: u32, channel_index: usize) -> (r: Rect)
    requires
        dpi <= MAX_EDITOR_DPI,
        channel_index < 4,
    ensures
        r.left == sw(690, dpi as int) + sw(3, dpi as int),
        r.top == sw(334 + channel_index * 32, dpi as int) + sw(3, dpi as int),
        r.right == sw(764, dpi as int) - sw(3, dpi as int),
        r.bottom == sw(360 + channel_index * 32, dpi as int) - sw(3, dpi as int),
{
    let frame = numeric_edit_frame_rect(dpi, channel_index);
    inset_by_three(frame, dpi)
}

/// Whether the point lies in `r`, for rectangles given at 96 DPI.
pub open spec fn in_scaled(dpi: int, left: int, top: int, right: int, bottom: int, x: int, y: int) -> bool {
    sw(left, dpi) <= x < sw(right, dpi) && sw(top, dpi) <= y < sw(bottom, dpi)
}

/// Whether the point lies on theme button `j`.
pub open spec fn on_theme_button(dpi: int, j: int, x: int, y: int) -> bool {
    in_scaled(dpi, 170 + j * 112, 50, 274 + j * 112, 84, x, y)
}

/// Whether the point lies on section button `j`.
pub open spec fn on_section_button(dpi: int, j: int, x: int, y: int) -> bool {
    in_scaled(dpi, 20, 108 + j * 48, 142, 148 + j * 48, x, y)
}

/// Whether the point lies on preset card `j`.
pub open spec fn on_preset_card(dpi: int, j: int, x: int, y: int) -> bool {
    in_scaled(dpi, 174 + j * 204, 146, 366 + j * 204, 350, x, y)
}

/// The theme button under the point, in button order.
pub open spec fn theme_hit(dpi: int, x: int, y: int) -> Option<ThemeMode> {
    if in_scaled(dpi, 170, 50, 274, 84, x, y) {
        Some(ThemeMode::System)
    } else if in_scaled(dpi, 282, 50, 386, 84, x, y) {
        Some(ThemeMode::Dark)
    } else if in_scaled(dpi, 394, 50, 498, 84, x, y) {
        Some(ThemeMode::Light)
    } else {
        None
    }
}

/// The layout button under the point.
pub open spec fn layout_hit(dpi: int, x: int, y: int) -> Option<AppearancePreset> {
    if in_scaled(dpi, 540, 50, 636, 84, x, y) {
        Some(AppearancePreset::Compact)
    } else if in_scaled(dpi, 644, 50, 740, 84, x, y) {
        Some(AppearancePreset::Minimal)
    } else {
        None
    }
}

/// The section button under the point.
pub open spec fn section_hit(dpi: int, x: int, y: int) -> Option<Section> {
    if in_scaled(dpi, 20, 108, 142, 148, x, y) {
        Some(Section::Preset)
    } else if in_scaled(dpi, 20, 156, 142, 196, x, y) {
        Some(Section::Panel)
    } else if in_scaled(dpi, 20, 204, 142, 244, x, y) {
        Some(Section::Text)
    } else if in_scaled(dpi, 20, 252, 142, 292, x, y) {
        Some(Section::Progress)
    } else if in_scaled(dpi, 20, 300, 142, 340, x, y) {
        Some(Section::Interaction)
    } else {
        None
    }
}

/// The preset card under the point.
pub open spec fn preset_hit(dpi: int, x: int, y: int) -> Option<ThemePreset> {
    if in_scaled(dpi, 174, 146, 366, 350, x, y) {
        Some(ThemePreset::Classic)
    } else if in_scaled(dpi, 378, 146, 570, 350, x, y) {
        Some(ThemePreset::Ocean)
    } else if in_scaled(dpi, 582, 146, 774, 350, x, y) {
        Some(ThemePreset::Forest)
    } else {
        None
    }
}

/// The first row of the page under the point, from row `from` on.
pub open spec fn row_hit(rows: Seq<EditorSelection>, dpi: int, x: int, y: int, from: nat) -> Option<EditorSelection>
    decreases rows.len() - from,
{
    if from >= rows.len() {
        None
    } else if in_scaled(dpi, 174, 108 + from as int * 48, 786, 148 + from as int * 48, x, y) {
        Some(rows[from as int])
    } else {
        row_hit(rows, dpi, x, y, from + 1)
    }
}

/// What a click at `(x, y)` lands on while `section` is shown: the theme,
/// layout and section buttons first, then the preset cards (on the preset
/// page) and the page's rows, then the reset and close buttons.
pub open spec fn hit_target(dpi: int, section: Section, x: int, y: int) -> Option<HitTarget> {
    if theme_hit(dpi, x, y) is Some {
        Some(HitTarget::Theme(theme_hit(dpi, x, y).unwrap()))
    } else if layout_hit(dpi, x, y) is Some {
        Some(HitTarget::Layout(layout_hit(dpi, x, y).unwrap()))
    } else if section_hit(dpi, x, y) is Some {
        Some(HitTarget::Section(section_hit(dpi, x, y).unwrap()))
    } else if section == Section::Preset && preset_hit(dpi, x, y) is Some {
        Some(HitTarget::Preset(preset_hit(dpi, x, y).unwrap()))
    } else if row_hit(section_rows(section), dpi, x, y, 0) is Some {
        Some(HitTarget::Row(row_hit(section_rows(section), dpi, x, y, 0).unwrap()))
    } else if in_scaled(dpi, 20, 488, 176, 528, x, y) {
        Some(HitTarget::Reset)
    } else if in_scaled(dpi, 690, 488, 786, 528, x, y) {
        Some(HitTarget::Close)
    } else {
        None
    }
}

/// What a click at `(x, y)` lands on while `section` is shown.
#[verifier::spinoff_prover]
pub fn hit_target_at(dpi: u32, section: Section, x: i32, y: i32) -> (hit: Option<HitTarget>)
    requires
        dpi <= MAX_EDITOR_DPI,
    ensures
        hit == hit_target(dpi as int, section, x as int, y as int),
{
    let modes = [ThemeMode::System, ThemeMode::Dark, ThemeMode::Light];
    let mut i: usize = 0;
    while i < 3
        invariant
            i <= 3,
            dpi <= MAX_EDITOR_DPI,
            modes@ == seq![ThemeMode::System, ThemeMode::Dark, ThemeMode::Light],
            forall|j: int|
                0 <= j < i ==> !#[trigger] on_theme_button(dpi as int, j, x as int, y as int),
        decreases 3 - i,
    {
        let r = theme_rect(dpi, modes[i]);
        if pt_in_rect(r, x, y) {
            assert(theme_index(modes@[i as int]) == i);
            assert(on_theme_button(dpi as int, i as int, x as int, y as int));
            if i >= 1 {
                assert(!on_theme_button(dpi as int, 0, x as int, y as int));
            }
            if i >= 2 {
                assert(!on_theme_button(dpi as int, 1, x as int, y as int));
            }
            assert(theme_hit(dpi as int, x as int, y as int) == Some(modes@[i as int]));
            return Some(HitTarget::Theme(modes[i]));
        }
        i = i + 1;
    }
    assert(theme_hit(dpi as int, x as int, y as int) is None) by {
        assert(!on_theme_button(dpi as int, 0, x as int, y as int));
        assert(!on_theme_button(dpi as int, 1, x as int, y as int));
        assert(!on_theme_button(dpi as int, 2, x as int, y as int));
    }
    let r = layout_rect(dpi, AppearancePreset::Compact);
    if pt_in_rect(r, x, y) {
        return Some(HitTarget::Layout(AppearancePreset::Compact));
    }
    let r = layout_rect(dpi, AppearancePreset::Minimal);
    if pt_in_rect(r, x, y) {
        return Some(HitTarget::Layout(AppearancePreset::Minimal));
    }
    assert(layout_hit(dpi as int, x as int, y as int) is None);
    let sections = [
        Section::Preset,
        Section::Panel,
        Section::Text,
        Section::Progress,
        Section::Interaction,
    ];
    let mut k: usize = 0;
    while k < 5
        invariant
            k <= 5,
            dpi <= MAX_EDITOR_DPI,
            sections@ == seq![
                Section::Preset,
                Section::Panel,
                Section::Text,
                Section::Progress,
                Section::Interaction,
            ],
            forall|j: int|
                0 <= j < k ==> !#[trigger] on_section_button(dpi as int, j, x as int, y as int),
        decreases 5 - k,
    {
        match section_rect(dpi, sections[k]) {
            Some(r) => {
                assert(section_index(sections@[k as int]) == Some(k as int));
                if pt_in_rect(r, x, y) {
                    assert(section_hit(dpi as int, x as int, y as int) == Some(sections@[k as int]));
                    return Some(HitTarget::Section(sections[k]));
                }
            },
            None => {},
        }
        k = k + 1;
    }
    assert(section_hit(dpi as int, x as int, y as int) is None) by {
        assert(!on_section_button(dpi as int, 0, x as int, y as int));
        assert(!on_section_button(dpi as int, 1, x as int, y as int));
        assert(!on_section_button(dpi as int, 2, x as int, y as int));
        assert(!on_section_button(dpi as int, 3, x as int, y as int));
        assert(!on_section_button(dpi as int, 4, x as int, y as int));
    }
    if section == Section::Preset {
        let presets = ThemePreset::all();
        let mut p: usize = 0;
        while p < 3
            invariant
                p <= 3,
                dpi <= MAX_EDITOR_DPI,
                presets@ == seq![ThemePreset::Classic, ThemePreset::Ocean, ThemePreset::Forest],
                section == Section::Preset,
                theme_hit(dpi as int, x as int, y as int) is None,
                layout_hit(dpi as int, x as int, y as int) is None,
                section_hit(dpi as int, x as int, y as int) is None,
                forall|j: int|
                    0 <= j < p ==> !#[trigger] on_preset_card(dpi as int, j, x as int, y as int),
            decreases 3 - p,
        {
            let r = preset_card_rect(dpi, presets[p]);
            if pt_in_rect(r, x, y) {
                assert(preset_index(presets@[p as int]) == p);
                assert(on_preset_card(dpi as int, p as int, x as int, y as int));
                if p >= 1 {
                    assert(!on_preset_card(dpi as int, 0, x as int, y as int));
                }
                if p >= 2 {
                    assert(!on_preset_card(dpi as int, 1, x as int, y as int));
                }
                assert(preset_hit(dpi as int, x as int, y as int) == Some(presets@[p as int]));
                return Some(HitTarget::Preset(presets[p]));
            }
            p = p + 1;
        }
        assert(preset_hit(dpi as int, x as int, y as int) is None) by {
            assert(!on_preset_card(dpi as int, 0, x as int, y as int));
            assert(!on_preset_card(dpi as int, 1, x as int, y as int));
            assert(!on_preset_card(dpi as int, 2, x as int, y as int));
        }
    }
    let page_rows = rows(section);
    let ghost all_rows = section_rows(section);
    let mut n: usize = 0;
    while n < page_rows.len()
        invariant
            n <= page_rows@.len() <= 4,
            dpi <= MAX_EDITOR_DPI,
            page_rows@ == all_rows,
            all_rows == section_rows(section),
            theme_hit(dpi as int, x as int, y as int) is None,
            layout_hit(dpi as int, x as int, y as int) is None,
            section_hit(dpi as int, x as int, y as int) is None,
            section == Section::Preset ==> preset_hit(dpi as int, x as int, y as int) is None,
            row_hit(all_rows, dpi as int, x as int, y as int, 0) == row_hit(
                all_rows,
                dpi as int,
                x as int,
                y as int,
                n as nat,
            ),
        decreases page_rows.len() - n,
    {
        let r = row_rect(dpi, n);
        if pt_in_rect(r, x, y) {
            return Some(HitTarget::Row(page_rows[n]));
        }
        n = n + 1;
    }
    let r = reset_rect(dpi);
    if pt_in_rect(r, x, y) {
        return Some(HitTarget::Reset);
    }
    let r = close_rect(dpi);
    if pt_in_rect(r, x, y) {
        return Some(HitTarget::Close);
    }
    None
}

/// The area that grabs the slider of colour channel `i` (red, green, blue,
/// alpha).
pub open spec fn color_slider_hit(dpi: u32, i: int) -> Rect {
    let track = Rect {
        left: window_scaled(244, dpi),
        top: window_scaled((348 + i * 32) as i32, dpi),
        right: window_scaled(676, dpi),
        bottom: window_scaled((352 + i * 32) as i32, dpi),
    };
    Rect {
        left: (track.left - window_scaled(8, dpi)) as i32,
        top: (track.top - window_scaled(10, dpi)) as i32,
        right: (track.right + window_scaled(8, dpi)) as i32,
        bottom: (track.bottom + window_scaled(10, dpi)) as i32,
    }
}

/// The slider kind of colour channel `i`.
pub open spec fn channel_slider(i: int) -> SliderKind {
    if i == 0 {
        SliderKind::Red
    } else if i == 1 {
        SliderKind::Green
    } else if i == 2 {
        SliderKind::Blue
    } else {
        SliderKind::Alpha
    }
}

/// The first colour slider from channel `from` on that the point grabs.
pub open spec fn color_slider_from(dpi: u32, x: int, y: int, from: nat) -> Option<SliderKind>
    decreases 4 - from,
{
    if from >= 4 {
        None
    } else if contains_point(color_slider_hit(dpi, from as int), x, y) {
        Some(channel_slider(from as int))
    } else {
        color_slider_from(dpi, x, y, from + 1)
    }
}

/// The slider a press at `(x, y)` grabs: the frosted-strength slider on the
/// panel page, else a colour channel's slider while a colour is edited.
pub open spec fn slider_hit(dpi: u32, section: Section, editor: EditorSelection, x: int, y: int) -> Option<SliderKind> {
    if section == Section::Panel && contains_point(blur_slider_hit(dpi as int), x, y) {
        Some(SliderKind::Blur)
    } else if editor is Blur {
        None
    } else {
        color_slider_from(dpi, x, y, 0)
    }
}

/// The slider a press at `(x, y)` grabs.
#[verifier::spinoff_prover]
pub fn slider_kind_at(dpi: u32, section: Section, editor: EditorSelection, x: i32, y: i32) -> (k: Option<SliderKind>)
    requires
        dpi <= MAX_EDITOR_DPI,
    ensures
        k == slider_hit(dpi, section, editor, x as int, y as int),
{
    if section == Section::Panel && pt_in_rect(blur_slider_hit_rect(dpi), x, y) {
        return Some(SliderKind::Blur);
    }
    match editor {
        EditorSelection::Blur => {
            return None;
        },
        EditorSelection::Color(_) => {},
    }
    let mut index: usize = 0;
    while index < 4
        invariant
            index <= 4,
            dpi <= MAX_EDITOR_DPI,
            !(section == Section::Panel && contains_point(blur_slider_hit(dpi as int), x as int, y as int)),
            editor is Color,
            color_slider_from(dpi, x as int, y as int, 0) == color_slider_from(
                dpi,
                x as int,
                y as int,
                index as nat,
            ),
        decreases 4 - index,
    {
        if pt_in_rect(color_slider_hit_rect(dpi, index), x, y) {
            return Some(
                if index == 0 {
                    SliderKind::Red
                } else if index == 1 {
                    SliderKind::Green
                } else if index == 2 {
                    SliderKind::Blue
                } else {
                    SliderKind::Alpha
                },
            );
        }
        index = index + 1;
    }
    None
}

/// The colour after typing `raw` into the input of channel `channel_index`
/// (red, green, blue, then alpha for any other index), the value capped at
/// 255, and whether the input must be rewritten with the capped value.
pub fn color_with_channel_input(current: Color, channel_index: usize, raw: u16) -> (r: (Color, bool))
    ensures
        ({
            let v = if raw > 255 {
                255u8
            } else {
                raw as u8
            };
            &&& r.0 == if channel_index == 0 {
                Color { r: v, ..current }
            } else if channel_index == 1 {
                Color { g: v, ..current }
            } else if channel_index == 2 {
                Color { b: v, ..current }
            } else {
                Color { a: v, ..current }
            }
            &&& r.1 == (raw > 255)
        }),
{
    let value: u8 = if raw > 255 {
        255
    } else {
        raw as u8
    };
    let color = if channel_index == 0 {
        Color::rgba(value, current.g, current.b, current.a)
    } else if channel_index == 1 {
        Color::rgba(current.r, value, current.b, current.a)
    } else if channel_index == 2 {
        Color::rgba(current.r, current.g, value, current.a)
    } else {
        Color::rgba(current.r, current.g, current.b, value)
    };
    (color, raw > 255)
}

/// The frosted strength after typing `raw` into its input, capped at the
/// maximum, and whether the input must be rewritten with the capped value.
pub fn blur_strength_input(raw: u16) -> (r: (u8, bool))
    ensures
        r.0 == if raw > FROSTED_STRENGTH_MAX {
            FROSTED_STRENGTH_MAX
        } else {
            raw as u8
        },
        r.1 == (raw > FROSTED_STRENGTH_MAX),
{
    if raw > FROSTED_STRENGTH_MAX as u16 {
        (FROSTED_STRENGTH_MAX, true)
    } else {
        (raw as u8, false)
    }
}

/// Whether `c` is an ASCII decimal digit.
pub open spec fn is_decimal_digit(c: char) -> bool {
    '0' <= c <= '9'
}

/// The number written by the decimal digits `d`.
pub open spec fn decimal_value(d: Seq<char>) -> int
    decreases d.len(),
{
    if d.len() == 0 {
        0
    } else {
        decimal_value(d.drop_last()) * 10 + (d.last() as int - '0' as int)
    }
}

/// The digits of an unsigned number: the text after an optional `+`.
pub open spec fn unsigned_digits(s: Seq<char>) -> Seq<char> {
    if s.len() > 0 && s[0] == '+' {
        s.drop_first()
    } else {
        s
    }
}

/// What std's `u16` parsing gives for `s`: an optional `+`, then one or more
/// decimal digits, of a value that fits in 16 bits.
pub open spec fn parsed_u16(s: Seq<char>) -> Option<u16> {
    let d = unsigned_digits(s);
    if d.len() == 0 || exists|i: int| 0 <= i < d.len() && !is_decimal_digit(#[trigger] d[i]) {
        None
    } else if decimal_value(d) > u16::MAX {
        None
    } else {
        Some(decimal_value(d) as u16)
    }
}

/// The number typed into a numeric input, as std parses it into a `u16`;
/// none for empty, malformed or too large input.
#[verifier::spinoff_prover]
pub fn parse_edit_value(text: &str) -> (v: Option<u16>)
    ensures
        v == parsed_u16(text@),
{
    let chars = chars_of(text);
    let start: usize = if chars.len() > 0 && chars[0] == '+' {
        1
    } else {
        0
    };
    let ghost d = unsigned_digits(text@);
    assert(d =~= chars@.subrange(start as int, chars@.len() as int));
    if start >= chars.len() {
        return None;
    }
    let mut acc: u32 = 0;
    let mut i: usize = start;
    while i < chars.len()
        invariant
            chars@ == text@,
            start <= i <= chars@.len(),
            d == chars@.subrange(start as int, chars@.len() as int),
            d == unsigned_digits(text@),
            forall|k: int| 0 <= k < i - start ==> is_decimal_digit(#[trigger] d[k]),
            acc == if decimal_value(d.take(i - start)) > 65536 {
                65536
            } else {
                decimal_value(d.take(i - start))
            },
            acc <= 65536,
        decreases chars.len() - i,
    {
        let c = chars[i];
        assert(d[i - start] == c);
        if !('0' <= c && c <= '9') {
            assert(!is_decimal_digit(d[i - start]));
            assert(exists|k: int| 0 <= k < d.len() && !is_decimal_digit(#[trigger] d[k]));
            assert(parsed_u16(text@) is None);
            return None;
        }
        let digit = (c as u32) - ('0' as u32);
        let ghost prev = d.take(i - start);
        assert(d.take(i - start + 1).drop_last() =~= prev);
        assert(d.take(i - start + 1).last() == c);
        proof {
            lemma_decimal_value_nonneg(prev);
        }
        let next = acc * 10 + digit;
        acc = if next > 65536 {
            65536
        } else {
            next
        };
        i = i + 1;
    }
    assert(d.take(d.len() as int) =~= d);
    if acc > 65535 {
        None
    } else {
        Some(acc as u16)
    }
}

proof fn lemma_decimal_value_nonneg(d: Seq<char>)
    requires
        forall|k: int| 0 <= k < d.len() ==> is_decimal_digit(#[trigger] d[k]),
    ensures
        decimal_value(d) >= 0,
    decreases d.len(),
{
    if d.len() > 0 {
        lemma_decimal_value_nonneg(d.drop_last());
    }
}

/// The colours of a button in each of its states.
#[derive(Clone, Copy, Debug, PartialEq, Eq, Structural)]
pub struct ButtonPalette {
    pub normal: Color,
    pub hover: Color,
    pub pressed: Color,
    pub selected: Color,
    pub selected_hover: Color,
    pub selected_pressed: Color,
}

/// The background of the button `target`: pressed over hovered over plain,
/// each in its selected or unselected shade.
pub fn button_background(
    target: HitTarget,
    selected: bool,
    hovered: Option<HitTarget>,
    pressed: Option<HitTarget>,
    palette: ButtonPalette,
) -> (c: Color)
    ensures
        c == if pressed == Some(target) {
            if selected {
                palette.selected_pressed
            } else {
                palette.pressed
            }
        } else if hovered == Some(target) {
            if selected {
                palette.selected_hover
            } else {
                palette.hover
            }
        } else if selected {
            palette.selected
        } else {
            palette.normal
        },
{
    let is_pressed = match pressed {
        Some(p) => p == target,
        None => false,
    };
    let is_hovered = match hovered {
        Some(h) => h == target,
        None => false,
    };
    if is_pressed {
        if selected {
            palette.selected_pressed
        } else {
            palette.pressed
        }
    } else if is_hovered {
        if selected {
            palette.selected_hover
        } else {
            palette.hover
        }
    } else if selected {
        palette.selected
    } else {
        palette.normal
    }
}

/// What the style editor shows: the page, the setting being edited, and the
/// slider being dragged.
#[derive(Clone, Copy, Debug, PartialEq, Eq, Structural)]
pub struct EditorState {
    pub section: Section,
    pub editor: EditorSelection,
    pub dragging_slider: Option<SliderKind>,
}

/// Opening a page: its first row becomes the edited setting (a page without
/// rows keeps the current one), and any slider drag ends.
pub fn select_section(state: EditorState, section: Section) -> (next: EditorState)
    ensures
        next.section == section,
        next.editor == if section_rows(section).len() > 0 {
            section_rows(section)[0]
        } else {
            state.editor
        },
        next.dragging_slider is None,
{
    let page_rows = rows(section);
    let editor = if page_rows.len() > 0 {
        page_rows[0]
    } else {
        state.editor
    };
    EditorState { section, editor, dragging_slider: None }
}

/// Choosing a row: its setting becomes the edited one and any slider drag
/// ends.
pub fn select_editor(state: EditorState, editor: EditorSelection) -> (next: EditorState)
    ensures
        next == (EditorState { section: state.section, editor, dragging_slider: None }),
{
    EditorState { section: state.section, editor, dragging_slider: None }
}

/// A message the editor posts to the widget window: its identifier (from
/// the application message base) and its parameter.
pub const WM_APP_BASE: u32 = 0x8000;

/// The message and parameter that a click on `target` posts to the widget, if
/// it posts one: a theme, layout or preset choice, or resetting the theme.
pub open spec fn target_message(target: HitTarget) -> Option<(u32, usize)> {
    match target {
        HitTarget::Theme(mode) => Some((0x807Bu32, theme_index(mode) as usize)),
        HitTarget::Layout(preset) => Some((0x807Cu32, layout_index(preset) as usize)),
        HitTarget::Preset(preset) => Some((0x807Eu32, preset_index(preset) as usize)),
        HitTarget::Reset => Some((0x807Du32, 0usize)),
        _ => None,
    }
}

/// The message that activating `target` posts to the widget.
pub fn message_for_target(target: HitTarget) -> (m: Option<(u32, usize)>)
    ensures
        m == target_message(target),
{
    match target {
        HitTarget::Theme(mode) => Some((
            WM_APP_BASE + 123,
            match mode {
                ThemeMode::System => 0,
                ThemeMode::Dark => 1,
                ThemeMode::Light => 2,
            },
        )),
        HitTarget::Layout(preset) => Some((
            WM_APP_BASE + 124,
            match preset {
                AppearancePreset::Compact => 0,
                AppearancePreset::Minimal => 1,
            },
        )),
        HitTarget::Preset(preset) => Some((
            WM_APP_BASE + 126,
            match preset {
                ThemePreset::Classic => 0,
                ThemePreset::Ocean => 1,
                ThemePreset::Forest => 2,
            },
        )),
        HitTarget::Reset => Some((WM_APP_BASE + 125, 0)),
        _ => None,
    }
}

/// The change a slider drag at `x` makes.
#[derive(Clone, Copy, Debug, PartialEq, Eq, Structural)]
pub enum SliderChange {
    Color(StyleColorTarget, Color),
    Blur(u8),
    Nothing,
}

/// The track of the colour slider of channel `i` (as `color_slider_track_rect`
/// gives it).
pub open spec fn color_track(dpi: u32, i: int) -> Rect {
    Rect {
        left: window_scaled(244, dpi),
        top: window_scaled((348 + i * 32) as i32, dpi),
        right: window_scaled(676, dpi),
        bottom: window_scaled((352 + i * 32) as i32, dpi),
    }
}

/// The channel index of a colour slider.
pub open spec fn slider_channel(kind: SliderKind) -> int {
    match kind {
        SliderKind::Red => 0,
        SliderKind::Green => 1,
        SliderKind::Blue => 2,
        _ => 3,
    }
}

/// The effect of dragging slider `kind` to `x`: a colour slider sets its
/// channel of the edited colour (`current`), the frosted-strength slider on
/// the panel page sets the strength; anything else does nothing.
pub open spec fn slider_effect(
    dpi: u32,
    section: Section,
    editor: EditorSelection,
    kind: SliderKind,
    x: int,
    current: Color,
) -> SliderChange {
    match editor {
        EditorSelection::Color(target) if kind != SliderKind::Blur => {
            let v = slider_value(color_track(dpi, slider_channel(kind)), x, 255) as u8;
            SliderChange::Color(
                target,
                match kind {
                    SliderKind::Red => Color { r: v, ..current },
                    SliderKind::Green => Color { g: v, ..current },
                    SliderKind::Blue => Color { b: v, ..current },
                    _ => Color { a: v, ..current },
                },
            )
        },
        _ => if kind == SliderKind::Blur && section == Section::Panel {
            SliderChange::Blur(
                slider_value(
                    Rect {
                        left: sw(292, dpi as int) as i32,
                        top: sw(224, dpi as int) as i32,
                        right: sw(646, dpi as int) as i32,
                        bottom: sw(228, dpi as int) as i32,
                    },
                    x,
                    FROSTED_STRENGTH_MAX,
                ) as u8,
            )
        } else {
            SliderChange::Nothing
        },
    }
}

/// The change that dragging slider `kind` to `x` makes; `current` is the
/// edited colour.
pub fn slider_change(
    dpi: u32,
    section: Section,
    editor: EditorSelection,
    kind: SliderKind,
    x: i32,
    current: Color,
) -> (c: SliderChange)
    requires
        dpi <= MAX_EDITOR_DPI,
    ensures
        c == slider_effect(dpi, section, editor, kind, x as int, current),
{
    match editor {
        EditorSelection::Color(target) => {
            if kind != SliderKind::Blur {
                let index: usize = match kind {
                    SliderKind::Red => 0,
                    SliderKind::Green => 1,
                    SliderKind::Blue => 2,
                    _ => 3,
                };
                let track = color_slider_track_rect(dpi, index);
                proof {
                    lemma_sw(244, dpi);
                    lemma_sw(676, dpi);
                }
                let value = slider_value_from_x(track, x, 255);
                let color = match kind {
                    SliderKind::Red => Color::rgba(value, current.g, current.b, current.a),
                    SliderKind::Green => Color::rgba(current.r, value, current.b, current.a),
                    SliderKind::Blue => Color::rgba(current.r, current.g, value, current.a),
                    _ => Color::rgba(current.r, current.g, current.b, value),
                };
                return SliderChange::Color(target, color);
            }
        },
        EditorSelection::Blur => {},
    }
    if kind == SliderKind::Blur && section == Section::Panel {
        let track = blur_slider_track_rect(dpi);
        let value = slider_value_from_x(track, x, FROSTED_STRENGTH_MAX);
        SliderChange::Blur(value)
    } else {
        SliderChange::Nothing
    }
}

/// The name of a page in the section list; the general and JSON pages are
/// not listed there and have none.
pub open spec fn section_label_text(section: Section, zh: bool) -> Option<Seq<char>> {
    match section {
        Section::Preset => Some(if zh { "预设"@ } else { "Presets"@ }),
        Section::Panel => Some(if zh { "面板"@ } else { "Panel"@ }),
        Section::Text => Some(if zh { "文字"@ } else { "Text"@ }),
        Section::Progress => Some(if zh { "进度条"@ } else { "Progress"@ }),
        Section::Interaction => Some(if zh { "交互"@ } else { "Interaction"@ }),
        _ => None,
    }
}

/// The name of a page in the section list.
pub fn section_label(section: Section, language: LanguageId) -> (s: Option<&'static str>)
    ensures
        match s {
            Some(t) => section_label_text(section, language == LanguageId::SimplifiedChinese)
                == Some(t@),
            None => section_label_text(section, language == LanguageId::SimplifiedChinese) is None,
        },
{
    let zh = language == LanguageId::SimplifiedChinese;
    match section {
        Section::Preset => Some(if zh { "预设" } else { "Presets" }),
        Section::Panel => Some(if zh { "面板" } else { "Panel" }),
        Section::Text => Some(if zh { "文字" } else { "Text" }),
        Section::Progress => Some(if zh { "进度条" } else { "Progress" }),
        Section::Interaction => Some(if zh { "交互" } else { "Interaction" }),
        _ => None,
    }
}

/// The name of a row of the style editor.
pub open spec fn row_label_text(row: EditorSelection, zh: bool) -> Seq<char> {
    match row {
        EditorSelection::Blur => if zh { "磨砂强度"@ } else { "Frosted intensity"@ },
        EditorSelection::Color(t) => match t {
            StyleColorTarget::PanelBackground => if zh { "背景颜色"@ } else { "Background"@ },
            StyleColorTarget::PanelBorder => if zh { "边框颜色"@ } else { "Border"@ },
            StyleColorTarget::QuotaType => if zh { "额度类型"@ } else { "Quota type"@ },
            StyleColorTarget::Remaining => if zh { "剩余额度"@ } else { "Remaining quota"@ },
            StyleColorTarget::ResetTime => if zh { "重置时间"@ } else { "Reset time"@ },
            StyleColorTarget::Error => if zh { "异常状态"@ } else { "Error state"@ },
            StyleColorTarget::ProgressHigh => if zh { "充足额度"@ } else { "High quota"@ },
            StyleColorTarget::ProgressMedium => if zh { "中等额度"@ } else { "Medium quota"@ },
            StyleColorTarget::ProgressLow => if zh { "低额度"@ } else { "Low quota"@ },
            StyleColorTarget::ProgressConsumed => if zh { "已消耗部分"@ } else { "Consumed"@ },
            StyleColorTarget::DragHandle => if zh { "拖拽点"@ } else { "Drag handle"@ },
        },
    }
}

/// The name of a row of the style editor.
pub fn row_label(row: EditorSelection, language: LanguageId) -> (s: &'static str)
    ensures
        s@ == row_label_text(row, language == LanguageId::SimplifiedChinese),
{
    let zh = language == LanguageId::SimplifiedChinese;
    match row {
        EditorSelection::Blur => if zh { "磨砂强度" } else { "Frosted intensity" },
        EditorSelection::Color(t) => match t {
            StyleColorTarget::PanelBackground => if zh { "背景颜色" } else { "Background" },
            StyleColorTarget::PanelBorder => if zh { "边框颜色" } else { "Border" },
            StyleColorTarget::QuotaType => if zh { "额度类型" } else { "Quota type" },
            StyleColorTarget::Remaining => if zh { "剩余额度" } else { "Remaining quota" },
            StyleColorTarget::ResetTime => if zh { "重置时间" } else { "Reset time" },
            StyleColorTarget::Error => if zh { "异常状态" } else { "Error state" },
            StyleColorTarget::ProgressHigh => if zh { "充足额度" } else { "High quota" },
            StyleColorTarget::ProgressMedium => if zh { "中等额度" } else { "Medium quota" },
            StyleColorTarget::ProgressLow => if zh { "低额度" } else { "Low quota" },
            StyleColorTarget::ProgressConsumed => if zh { "已消耗部分" } else { "Consumed" },
            StyleColorTarget::DragHandle => if zh { "拖拽点" } else { "Drag handle" },
        },
    }
}

/// What the settings window is opened or refreshed with.
#[derive(Clone, Debug)]
pub struct StyleWindowSnapshot {
    pub language: LanguageId,
    pub theme_mode: ThemeMode,
    pub is_dark: bool,
    pub appearance_preset: AppearancePreset,
    pub active_style: crate::style::ThemeStyle,
    pub editable_settings: crate::settings_model::EditableSettings,
}

/// Which inputs the editor shows: the four channel inputs while a colour is
/// edited outside the preset page, and the frosted-strength input on the
/// panel page.
pub fn editor_inputs_shown(state: EditorState) -> (r: (bool, bool))
    ensures
        r.0 == (state.section != Section::Preset && state.editor is Color),
        r.1 == (state.section == Section::Panel),
{
    let show_color = state.section != Section::Preset && match state.editor {
        EditorSelection::Color(_) => true,
        EditorSelection::Blur => false,
    };
    (show_color, state.section == Section::Panel)
}

/// The first row, from row `k` on, of `rows` that edits colour `target`.
pub open spec fn first_row_from(rows: Seq<EditorSelection>, target: StyleColorTarget, k: int) -> Option<int>
    decreases rows.len() - k,
{
    if k < 0 || k >= rows.len() {
        None
    } else if rows[k] == EditorSelection::Color(target) {
        Some(k)
    } else {
        first_row_from(rows, target, k + 1)
    }
}

proof fn lemma_first_row_from(rows: Seq<EditorSelection>, target: StyleColorTarget, k: int, found: Option<int>)
    requires
        0 <= k <= rows.len(),
        forall|j: int| 0 <= j < k ==> rows[j] != EditorSelection::Color(target),
        match found {
            Some(i) => k <= i < rows.len() && rows[i] == EditorSelection::Color(target) && forall|j: int|
                0 <= j < i ==> rows[j] != EditorSelection::Color(target),
            None => forall|j: int| 0 <= j < rows.len() ==> rows[j] != EditorSelection::Color(target),
        },
    ensures
        first_row_from(rows, target, k) == found,
    decreases rows.len() - k,
{
    if k < rows.len() {
        match found {
            Some(i) => {
                if i != k {
                    lemma_first_row_from(rows, target, k + 1, found);
                }
            },
            None => {
                lemma_first_row_from(rows, target, k + 1, found);
            },
        }
    }
}

/// Where the hex input of each colour setting goes on `section`, in the
/// settings' editor order: on the first row that edits it, hidden (none)
/// where the page has no such row.
#[verifier::spinoff_prover]
pub fn hex_edit_layout(dpi: u32, section: Section) -> (v: Vec<Option<Rect>>)
    requires
        dpi <= MAX_EDITOR_DPI,
    ensures
        v@.len() == 11,
        forall|i: int|
            0 <= i < 11 ==> #[trigger] v@[i] == match first_row_from(section_rows(section), target_at(i), 0) {
                Some(j) => Some(hex_edit_place(dpi, j)),
                None => None,
            },
{
    let mut v: Vec<Option<Rect>> = Vec::new();
    let mut i: usize = 0;
    while i < 11
        invariant
            i <= 11,
            dpi <= MAX_EDITOR_DPI,
            v@.len() == i,
            forall|a: int|
                0 <= a < i ==> #[trigger] v@[a] == match first_row_from(section_rows(section), target_at(a), 0) {
                    Some(j) => Some(hex_edit_place(dpi, j)),
                    None => None,
                },
        decreases 11 - i,
    {
        let target = match decode_color_target(i) {
            Some(t) => t,
            None => {
                assert(false);
                StyleColorTarget::PanelBackground
            },
        };
        assert(target == target_at(i as int));
        let found = color_row_index(section, target);
        proof {
            let f: Option<int> = match found {
                Some(r) => Some(r as int),
                None => None,
            };
            lemma_first_row_from(section_rows(section), target, 0, f);
        }
        match found {
            Some(row) => {
                assert(section_rows(section).len() <= 4);
                let r = hex_edit_rect(dpi, row);
                v.push(Some(r));
            },
            None => {
                v.push(None);
            },
        }
        i = i + 1;
    }
    v
}

/// The colour setting at position `i` in editor order.
pub open spec fn target_at(i: int) -> StyleColorTarget {
    if i == 0 {
        StyleColorTarget::PanelBackground
    } else if i == 1 {
        StyleColorTarget::PanelBorder
    } else if i == 2 {
        StyleColorTarget::QuotaType
    } else if i == 3 {
        StyleColorTarget::Remaining
    } else if i == 4 {
        StyleColorTarget::ResetTime
    } else if i == 5 {
        StyleColorTarget::Error
    } else if i == 6 {
        StyleColorTarget::ProgressHigh
    } else if i == 7 {
        StyleColorTarget::ProgressMedium
    } else if i == 8 {
        StyleColorTarget::ProgressLow
    } else if i == 9 {
        StyleColorTarget::ProgressConsumed
    } else {
        StyleColorTarget::DragHandle
    }
}

/// The hex input on row `row`, as `hex_edit_rect` places it.
pub open spec fn hex_edit_place(dpi: u32, row: int) -> Rect {
    Rect {
        left: (sw(786, dpi as int) - sw(132, dpi as int) + sw(3, dpi as int)) as i32,
        top: (sw(108 + row * 48, dpi as int) + sw(6, dpi as int) + sw(3, dpi as int)) as i32,
        right: (sw(786, dpi as int) - sw(12, dpi as int) - sw(3, dpi as int)) as i32,
        bottom: (sw(148 + row * 48, dpi as int) - sw(6, dpi as int) - sw(3, dpi as int)) as i32,
    }
}

/// What the style window does after the text of a hex input box changed.
#[derive(Clone, Copy, Debug, PartialEq, Eq, Structural)]
pub struct HexEditOutcome {
    /// Refill the red, green, blue and alpha boxes: the changed colour is the
    /// one being edited.
    pub sync_numeric_edits: bool,
    /// Show this colour in the widget at once, then save the settings.
    pub preview: Option<Color>,
}

/// Nothing to do.
pub open spec fn no_hex_outcome() -> HexEditOutcome {
    HexEditOutcome { sync_numeric_edits: false, preview: None }
}

/// Handles a change of the hex input box of `target`, whose text is now
/// `text`. While the boxes are being refilled (`syncing`) nothing happens.
/// Otherwise a complete colour is applied to the style and previewed; text
/// that is not yet a colour but may become one leaves the box unflagged, and
/// text that can never be a colour flags it as invalid.
pub fn hex_edit_changed(
    style: &mut ThemeStyle,
    invalid: &mut Vec<bool>,
    syncing: bool,
    editor: EditorSelection,
    target: StyleColorTarget,
    text: &str,
) -> (o: HexEditOutcome)
    requires
        old(invalid)@.len() == 11,
    ensures
        syncing ==> final(style)@ == old(style)@ && final(invalid)@ == old(invalid)@ && o
            == no_hex_outcome(),
        !syncing ==> match hex_input_result(text@) {
            Ok(Some(c)) => final(style)@ == with_color_text(old(style)@, target, hex_rgba_text(c))
                && final(invalid)@ == old(invalid)@.update(color_target_index(target) as int, false)
                && o == (HexEditOutcome {
                sync_numeric_edits: editor == EditorSelection::Color(target),
                preview: Some(c),
            }),
            Ok(None) => final(style)@ == old(style)@ && final(invalid)@ == old(invalid)@.update(
                color_target_index(target) as int,
                false,
            ) && o == no_hex_outcome(),
            Err(_) => final(style)@ == old(style)@ && final(invalid)@ == old(invalid)@.update(
                color_target_index(target) as int,
                true,
            ) && o == no_hex_outcome(),
        },
{
    let none = HexEditOutcome { sync_numeric_edits: false, preview: None };
    if syncing {
        return none;
    }
    let index = encode_color_target(target);
    match parse_hex_input(text) {
        Ok(Some(color)) => {
            invalid.set(index, false);
            style.set_color(target, color);
            HexEditOutcome { sync_numeric_edits: editor == EditorSelection::Color(target), preview: Some(color) }
        },
        Ok(None) => {
            invalid.set(index, false);
            none
        },
        Err(()) => {
            invalid.set(index, true);
            none
        },
    }
}

/// Handles the hex input box of `target` losing the focus: the box is no
/// longer flagged, and it shows the canonical text of the colour in effect.
pub fn hex_edit_left(style: &ThemeStyle, invalid: &mut Vec<bool>, target: StyleColorTarget) -> (text: String)
    requires
        old(invalid)@.len() == 11,
        !hex_cut_panics(color_text(style@, target)),
    ensures
        final(invalid)@ == old(invalid)@.update(color_target_index(target) as int, false),
        text@ == hex_rgba_text(color_of_text(color_text(style@, target))),
{
    invalid.set(encode_color_target(target), false);
    style.color(target).to_hex_rgba()
}

} // verus!
