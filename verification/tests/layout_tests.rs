use codex_usage_win::color::Color;
use codex_usage_win::editor_layout::{
    blur_strength_input, color_row_index, color_with_channel_input, hit_target_at,
    parse_edit_value, rows, section_rect, slider_kind_at, theme_rect, EditorSelection, HitTarget,
    Section,
};
use codex_usage_win::appearance::AppearancePreset;
use codex_usage_win::fonts::{mono_face, taskbar_face, taskbar_widget_face, ui_face};
use codex_usage_win::language::LanguageId;
use codex_usage_win::placement::{
    place_widget, select_taskbar_index, small_mode_transition, taskbar_at_point,
    tray_left_for_taskbar,
};
use codex_usage_win::popup_menu::{
    hit_item, item_rect, menu_height, place_menu, scale_for_dpi, Palette, PopupAction, PopupItem,
};
use codex_usage_win::style::{StyleColorTarget, ThemeMode, ThemePreset};
use codex_usage_win::style_editor::{Rect, SliderKind};

fn menu() -> Vec<PopupItem> {
    vec![
        PopupItem::command("Refresh", 1),
        PopupItem::separator(),
        PopupItem::disabled_command("Version", 2),
        PopupItem::submenu("Language", vec![PopupItem::command("English", 3)]),
    ]
}

#[test]
fn menu_rows_stack_below_the_padding() {
    let items = menu();
    assert_eq!(scale_for_dpi(8, 96), 8);
    assert_eq!(scale_for_dpi(40, 144), 60);
    assert_eq!(menu_height(&items, 96), 8 * 2 + 40 + 14 + 40 + 40);
    let r = item_rect(&items, 2, 300, 96);
    assert_eq!(r, Rect { left: 8, top: 8 + 40 + 14, right: 292, bottom: 8 + 40 + 14 + 40 });
    let r = item_rect(&items, 0, 450, 144);
    assert_eq!(r, Rect { left: 12, top: 12, right: 438, bottom: 72 });
}

#[test]
fn menu_hits_skip_separators_and_padding() {
    let items = menu();
    assert_eq!(hit_item(&items, 0, 96), None);
    assert_eq!(hit_item(&items, 8, 96), Some(0));
    assert_eq!(hit_item(&items, 47, 96), Some(0));
    assert_eq!(hit_item(&items, 50, 96), None);
    assert_eq!(hit_item(&items, 62, 96), Some(2));
    assert_eq!(hit_item(&items, 141, 96), Some(3));
    assert_eq!(hit_item(&items, 142, 96), None);
}

#[test]
fn menu_builders_set_action_and_state() {
    let sub = PopupItem::submenu("More", vec![PopupItem::separator()]);
    assert!(sub.enabled);
    assert_eq!(sub.text, "More");
    match sub.action {
        PopupAction::Submenu(items) => assert_eq!(items.len(), 1),
        _ => panic!("expected a submenu"),
    }
    let off = PopupItem::disabled_command("x", 9);
    assert!(!off.enabled);
    assert!(matches!(off.action, PopupAction::Command(9)));
}

#[test]
fn menu_opens_left_or_up_at_screen_edges() {
    let work = Rect { left: 0, top: 0, right: 1000, bottom: 800 };
    assert_eq!(place_menu(100, 100, 300, 200, work), (100, 100));
    assert_eq!(place_menu(900, 100, 300, 200, work), (600, 100));
    assert_eq!(place_menu(100, 700, 300, 200, work), (100, 600));
    assert_eq!(place_menu(200, 100, 300, 1000, work), (200, 0));
}

#[test]
fn palettes_follow_the_windows_theme() {
    let dark = Palette::for_windows_theme(true);
    assert_eq!(dark.background, Color::from_hex("#1F1F1FFF"));
    assert_eq!(dark.hover, Color::from_hex("#2D2D2FFF"));
    let light = Palette::for_windows_theme(false);
    assert_eq!(light.text, Color::from_hex("#202020FF"));
    assert_eq!(light.separator, Color::from_hex("#DEDEDEFF"));
}

#[test]
fn faces_depend_on_language_and_registration() {
    assert_eq!(ui_face(LanguageId::SimplifiedChinese, true), "Noto Sans SC");
    assert_eq!(ui_face(LanguageId::English, true), "Inter Variable");
    assert_eq!(ui_face(LanguageId::SimplifiedChinese, false), "Segoe UI");
    assert_eq!(taskbar_face(true), "Inter Variable");
    assert_eq!(taskbar_face(false), "Segoe UI");
    assert_eq!(mono_face(true), "JetBrains Mono");
    assert_eq!(mono_face(false), "Consolas");
    assert_eq!(taskbar_widget_face(true, true), "Segoe UI");
    assert_eq!(taskbar_widget_face(false, true), "Microsoft YaHei UI");
    assert_eq!(taskbar_widget_face(false, false), "Arial");
}

#[test]
fn widget_sits_left_of_the_tray_within_the_taskbar() {
    let taskbar = Rect { left: 0, top: 1040, right: 1920, bottom: 1080 };
    let p = place_widget(taskbar, 1700, 200, 32, 50, true);
    assert_eq!(p.tray_offset, 50);
    assert_eq!(p.x, 1700 - 200 - 50);
    assert_eq!(p.y, 4);
    let p = place_widget(taskbar, 1700, 200, 32, 5000, false);
    assert_eq!(p.tray_offset, 1500);
    assert_eq!(p.x, 0);
    assert_eq!(p.y, 1044);
    let p = place_widget(taskbar, 1700, 200, 32, -3, false);
    assert_eq!(p.tray_offset, 0);
}

#[test]
fn small_mode_entry_shows_the_session_window() {
    assert_eq!(small_mode_transition(false, true, true), (true, false));
    assert_eq!(small_mode_transition(true, true, true), (true, true));
    assert_eq!(small_mode_transition(true, true, false), (false, true));
}

#[test]
fn taskbar_lookup_and_selection() {
    let bars = vec![
        Rect { left: 0, top: 1040, right: 1920, bottom: 1080 },
        Rect { left: 1920, top: 1040, right: 3840, bottom: 1080 },
    ];
    assert_eq!(taskbar_at_point(&bars, 2000, 1050), Some(1));
    assert_eq!(taskbar_at_point(&bars, 2000, 10), None);
    assert_eq!(select_taskbar_index(5, 2), Some(1));
    assert_eq!(select_taskbar_index(0, 2), Some(0));
    assert_eq!(select_taskbar_index(0, 0), None);
    assert_eq!(tray_left_for_taskbar(bars[0], None), 1920);
    assert_eq!(tray_left_for_taskbar(bars[0], Some(Rect { left: 1700, top: 0, right: 0, bottom: 0 })), 1700);
}

#[test]
fn editor_pages_list_their_rows() {
    assert_eq!(rows(Section::Panel).len(), 3);
    assert_eq!(rows(Section::Panel)[2], EditorSelection::Blur);
    assert!(rows(Section::Preset).is_empty());
    assert_eq!(color_row_index(Section::Text, StyleColorTarget::ResetTime), Some(2));
    assert_eq!(color_row_index(Section::Text, StyleColorTarget::DragHandle), None);
    assert_eq!(section_rect(96, Section::General), None);
    assert_eq!(section_rect(96, Section::Text), Some(Rect { left: 20, top: 204, right: 142, bottom: 244 }));
    assert_eq!(theme_rect(192, ThemeMode::Light), Rect { left: 788, top: 100, right: 996, bottom: 168 });
}

#[test]
fn clicks_find_buttons_cards_and_rows() {
    assert_eq!(hit_target_at(96, Section::Panel, 300, 60), Some(HitTarget::Theme(ThemeMode::Dark)));
    assert_eq!(hit_target_at(96, Section::Panel, 650, 60), Some(HitTarget::Layout(AppearancePreset::Minimal)));
    assert_eq!(hit_target_at(96, Section::Panel, 30, 160), Some(HitTarget::Section(Section::Panel)));
    assert_eq!(hit_target_at(96, Section::Preset, 400, 200), Some(HitTarget::Preset(ThemePreset::Ocean)));
    assert_eq!(
        hit_target_at(96, Section::Panel, 400, 160),
        Some(HitTarget::Row(EditorSelection::Color(StyleColorTarget::PanelBorder)))
    );
    assert_eq!(hit_target_at(96, Section::Panel, 30, 500), Some(HitTarget::Reset));
    assert_eq!(hit_target_at(96, Section::Panel, 700, 500), Some(HitTarget::Close));
    assert_eq!(hit_target_at(96, Section::Panel, 900, 650), None);
}

#[test]
fn sliders_are_grabbed_near_their_tracks() {
    let color = EditorSelection::Color(StyleColorTarget::Remaining);
    assert_eq!(slider_kind_at(96, Section::Panel, color, 300, 226), Some(SliderKind::Blur));
    assert_eq!(slider_kind_at(96, Section::Text, color, 300, 226), None);
    assert_eq!(slider_kind_at(96, Section::Text, color, 300, 350), Some(SliderKind::Red));
    assert_eq!(slider_kind_at(96, Section::Text, color, 300, 446), Some(SliderKind::Alpha));
    assert_eq!(slider_kind_at(96, Section::Text, EditorSelection::Blur, 300, 350), None);
}

#[test]
fn numeric_inputs_parse_like_std_and_cap_values() {
    for text in ["", "+", "0", "7", "255", "+12", "-1", "65535", "65536", "99999", "1a", " 1"] {
        assert_eq!(parse_edit_value(text), text.parse::<u16>().ok(), "{text:?}");
    }
    let c = Color::rgba(1, 2, 3, 4);
    assert_eq!(color_with_channel_input(c, 0, 300), (Color::rgba(255, 2, 3, 4), true));
    assert_eq!(color_with_channel_input(c, 2, 9), (Color::rgba(1, 2, 9, 4), false));
    assert_eq!(color_with_channel_input(c, 3, 128), (Color::rgba(1, 2, 3, 128), false));
    assert_eq!(blur_strength_input(150), (100, true));
    assert_eq!(blur_strength_input(42), (42, false));
}

#[test]
fn dragged_widget_lands_under_the_cursor() {
    use_drag_law();
}

fn use_drag_law() {
    let taskbar = Rect { left: 100, top: 0, right: 2020, bottom: 40 };
    for drag_left in [0, 1, 494, 1499, 1500] {
        let offset = codex_usage_win::widget::offset_for_drag_left(1800, 100, 200, drag_left);
        let p = place_widget(taskbar, 1800, 200, 32, offset, true);
        assert_eq!(p.x, drag_left);
    }
    let offset = codex_usage_win::widget::offset_for_drag_left(1800, 100, 200, -50);
    assert_eq!(place_widget(taskbar, 1800, 200, 32, offset, true).x, 0);
    let offset = codex_usage_win::widget::offset_for_drag_left(1800, 100, 200, 9000);
    assert_eq!(place_widget(taskbar, 1800, 200, 32, offset, true).x, 1500);
}
