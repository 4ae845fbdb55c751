use codex_usage_win::appearance::{AppearancePreset, LocalTime, UsageWindowKind};
use codex_usage_win::color::Color;
use codex_usage_win::language::LanguageId;
use codex_usage_win::style::{StyleColorTarget, ThemeStyle};
use codex_usage_win::style_editor::{
    decode_color_target, encode_color_target, pack_color, point_from_lparam,
    slider_value_from_x, target_from_hex_control_id, unpack_color, Rect,
};
use codex_usage_win::widget::{
    clamp_offset_for_taskbar, drag_anchor_px_for_dpi, drag_left_from_cursor,
    github_releases_menu_label, is_drag_handle_point, manual_update_required_message,
    minimal_hover_text, minimal_percent_hit, offset_for_drag_left, preview_frame_due,
    scale_px, style_color_target_label, total_widget_width_for_preset, tray_reposition_is_suppressed,
    widget_height, widget_text_quality, MinimalHoverTarget, minimal_hover_transition,
    minimal_tooltip_rect, hover_anchor_x, HoverAction,
};

#[test]
fn scaling_rounds_half_away_from_zero() {
    assert_eq!(scale_px(10, 144), 15);
    assert_eq!(scale_px(1, 144), 2);
    assert_eq!(scale_px(-1, 144), -2);
    assert_eq!(scale_px(13, 120), 16);
}

#[test]
fn widget_sizes_follow_layout_and_taskbar() {
    assert_eq!(widget_height(true, AppearancePreset::Compact, 96), 28);
    assert_eq!(widget_height(true, AppearancePreset::Minimal, 192), 56);
    assert!(total_widget_width_for_preset(LanguageId::English, AppearancePreset::Minimal, 96)
        < total_widget_width_for_preset(LanguageId::English, AppearancePreset::Compact, 96));
    assert_eq!(total_widget_width_for_preset(LanguageId::English, AppearancePreset::Minimal, 96), 12 + 6 + 36 + 6);
}

#[test]
fn drag_handle_is_the_left_strip() {
    assert!(is_drag_handle_point(0, 10, 32, 96));
    assert!(is_drag_handle_point(11, 27, 32, 96));
    assert!(!is_drag_handle_point(12, 10, 32, 96));
    assert!(!is_drag_handle_point(5, 3, 32, 96));
    assert!(!is_drag_handle_point(5, 28, 32, 96));
}

#[test]
fn dragging_keeps_the_widget_between_taskbar_and_tray() {
    assert_eq!(clamp_offset_for_taskbar(1700, 0, 200, 2000), 1500);
    assert_eq!(clamp_offset_for_taskbar(1700, 0, 200, -5), 0);
    assert_eq!(clamp_offset_for_taskbar(100, 0, 200, 50), 0);
    assert_eq!(drag_left_from_cursor(0, 500, 6), 494);
    assert_eq!(offset_for_drag_left(1700, 0, 200, 494), 1006);
    assert_eq!(offset_for_drag_left(1700, 0, 200, -100), 1500);
    assert_eq!(drag_anchor_px_for_dpi(6, 0), 0);
    assert_eq!(drag_anchor_px_for_dpi(6, 144), 9);
}

#[test]
fn minimal_layout_hovers_name_the_window() {
    let hit = minimal_percent_hit(AppearancePreset::Minimal, false, false, true, true, 40, 96, 20, 10);
    let (target, rect) = hit.unwrap();
    assert_eq!(target, MinimalHoverTarget::Session);
    assert_eq!(rect, Rect { left: 16, top: 1, right: 56, bottom: 18 });
    let hit = minimal_percent_hit(AppearancePreset::Minimal, false, false, true, true, 40, 96, 20, 30);
    assert_eq!(hit.unwrap().0, MinimalHoverTarget::Weekly);
    assert!(minimal_percent_hit(AppearancePreset::Compact, false, false, true, true, 40, 96, 20, 10).is_none());
    assert!(minimal_percent_hit(AppearancePreset::Minimal, true, true, true, true, 40, 96, 20, 10).is_none());
    let reset = LocalTime { year: 2026, month: 7, day: 18, hour: 19, minute: 4 };
    assert_eq!(
        minimal_hover_text("5h", LanguageId::English, 13, Some(reset), UsageWindowKind::Session),
        "5h · 19:04"
    );
    assert_eq!(
        minimal_hover_text("7d", LanguageId::English, 13, None, UsageWindowKind::Weekly),
        "7d · --"
    );
}

#[test]
fn text_quality_follows_the_panel_alpha() {
    let mut style = ThemeStyle::dark_default();
    assert_eq!(widget_text_quality(&style, false), 5);
    style.set_color(StyleColorTarget::PanelBackground, Color::rgba(0, 0, 0, 200));
    assert_eq!(widget_text_quality(&style, false), 3);
}

#[test]
fn preview_frames_and_reposition_suppression_follow_the_clock() {
    assert_eq!(preview_frame_due(None, 100, 16, false), (true, Some(100)));
    assert_eq!(preview_frame_due(Some(100), 110, 16, false), (false, Some(100)));
    assert_eq!(preview_frame_due(Some(100), 116, 16, false), (true, Some(116)));
    assert_eq!(preview_frame_due(Some(100), 101, 16, true), (true, Some(101)));
    assert_eq!(tray_reposition_is_suppressed(Some(50), 10), (true, Some(50)));
    assert_eq!(tray_reposition_is_suppressed(Some(50), 50), (false, None));
    assert_eq!(tray_reposition_is_suppressed(None, 50), (false, None));
}

#[test]
fn labels_come_in_both_languages() {
    assert_eq!(style_color_target_label(StyleColorTarget::DragHandle, LanguageId::English), "Drag handle color");
    assert_eq!(style_color_target_label(StyleColorTarget::PanelBackground, LanguageId::SimplifiedChinese), "背景颜色");
    assert_eq!(github_releases_menu_label(LanguageId::German), "GitHub Releases öffnen");
    assert_eq!(
        manual_update_required_message(LanguageId::SimplifiedChinese, "1.2.3"),
        "检测到 v1.2.3，但程序名称或发布文件名称已发生变化，无法自动升级。请前往 GitHub Releases 手动更新。"
    );
}

#[test]
fn editor_messages_carry_targets_and_colors() {
    for v in 0..11usize {
        let t = decode_color_target(v).unwrap();
        assert_eq!(encode_color_target(t), v);
        assert_eq!(target_from_hex_control_id(320 + v as u16), Some(t));
    }
    assert_eq!(decode_color_target(11), None);
    assert_eq!(target_from_hex_control_id(331), None);
    let c = Color::rgba(0x12, 0x34, 0x56, 0x78);
    assert_eq!(pack_color(c) as u32, 0x7856_3412);
    assert_eq!(unpack_color(pack_color(c)), c);
    assert_eq!(point_from_lparam(0x0010_FFFE), (-2, 16));
    let track = Rect { left: 100, top: 0, right: 200, bottom: 4 };
    assert_eq!(slider_value_from_x(track, 150, 255), 128);
    assert_eq!(slider_value_from_x(track, 50, 255), 0);
    assert_eq!(slider_value_from_x(track, 500, 100), 100);
}

#[test]
fn colors_parse_print_and_blend() {
    assert_eq!(Color::try_from_hex("  ##a0b0c0 "), Some(Color::rgba(0xA0, 0xB0, 0xC0, 255)));
    assert_eq!(Color::try_from_hex("#12345"), None);
    assert_eq!(Color::from_hex("nope"), Color::rgba(0, 0, 0, 255));
    assert_eq!(Color::rgba(1, 2, 3, 4).to_hex_rgba(), "#01020304");
    assert_eq!(Color::new(1, 2, 3).to_colorref(), 0x0003_0201);
    let over = Color::rgba(255, 0, 0, 128).blend_over(Color::rgba(0, 0, 255, 255));
    assert_eq!(over, Color::rgba(128, 0, 127, 255));
}

#[test]
fn hover_tooltip_shows_once_per_percentage() {
    let r = Rect { left: 16, top: 1, right: 56, bottom: 18 };
    assert_eq!(
        minimal_hover_transition(None, Some((MinimalHoverTarget::Session, r))),
        (Some(MinimalHoverTarget::Session), HoverAction::Show(MinimalHoverTarget::Session, r))
    );
    assert_eq!(
        minimal_hover_transition(Some(MinimalHoverTarget::Session), Some((MinimalHoverTarget::Session, r))),
        (Some(MinimalHoverTarget::Session), HoverAction::Keep)
    );
    assert_eq!(minimal_hover_transition(Some(MinimalHoverTarget::Weekly), None), (None, HoverAction::Hide));
    assert_eq!(minimal_hover_transition(None, None), (None, HoverAction::Keep));
    assert_eq!(hover_anchor_x(r), 36);
    let owner = Rect { left: 1000, top: 1040, right: 1100, bottom: 1080 };
    assert_eq!(minimal_tooltip_rect(owner, 1036, 96), (980, 1006, 112, 28));
    let top_owner = Rect { left: 0, top: 0, right: 100, bottom: 40 };
    assert_eq!(minimal_tooltip_rect(top_owner, 36, 96), (-20, 46, 112, 28));
}
