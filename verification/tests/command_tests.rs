use codex_usage_win::appearance::{split_value_text, AppearancePreset};
use codex_usage_win::color::Color;
use codex_usage_win::commands::{
    alert_entries, decode_menu_command, diagnose_requested, is_dark_for_mode, language_entries,
    main_window_step, poll_interval_entries, style_menu_label, toggle_usage_window,
    usage_display_entries, version_entry, version_label, MainState, MenuCommand,
};
use codex_usage_win::editor_layout::{
    button_background, editor_inputs_shown, hex_edit_changed, hex_edit_layout, hex_edit_left, hex_edit_rect, message_for_target, row_label, section_label, select_editor,
    select_section, slider_change, ButtonPalette, EditorSelection, EditorState, HitTarget,
    Section, SliderChange,
};
use codex_usage_win::language::LanguageId;
use codex_usage_win::native::{file_time_from_unix_seconds, wide_str};
use codex_usage_win::style::{StyleColorTarget, StyleSettings, ThemeMode, ThemePreset, ThemeStyle};
use codex_usage_win::style_editor::{apply_style_preview, pack_color, SliderKind, StylePreview};
use codex_usage_win::text::eq_ignore_ascii_case;

#[test]
fn menu_identifiers_decode_to_commands() {
    assert_eq!(decode_menu_command(1), Some(MenuCommand::Refresh));
    assert_eq!(decode_menu_command(2), Some(MenuCommand::Exit));
    assert_eq!(decode_menu_command(12), Some(MenuCommand::PollInterval(900_000)));
    assert_eq!(decode_menu_command(13), Some(MenuCommand::PollInterval(3_600_000)));
    assert_eq!(decode_menu_command(82), Some(MenuCommand::AlertThreshold(20)));
    assert_eq!(decode_menu_command(92), Some(MenuCommand::Layout(AppearancePreset::Minimal)));
    assert_eq!(decode_menu_command(94), Some(MenuCommand::Theme(ThemeMode::Dark)));
    assert_eq!(decode_menu_command(102), Some(MenuCommand::EditBlur));
    assert_eq!(decode_menu_command(111), Some(MenuCommand::EditColor(StyleColorTarget::DragHandle)));
    assert_eq!(decode_menu_command(40), Some(MenuCommand::Language(None)));
    assert_eq!(decode_menu_command(51), Some(MenuCommand::Language(Some(LanguageId::SimplifiedChinese))));
    assert_eq!(decode_menu_command(3), None);
    assert_eq!(decode_menu_command(90), None);
    assert_eq!(decode_menu_command(113), None);
}

#[test]
fn the_only_visible_window_cannot_be_hidden() {
    assert_eq!(toggle_usage_window(true, false, true), (true, false));
    assert_eq!(toggle_usage_window(true, true, true), (false, true));
    assert_eq!(toggle_usage_window(false, true, true), (true, true));
    assert_eq!(toggle_usage_window(false, true, false), (false, true));
    assert_eq!(toggle_usage_window(true, true, false), (true, false));
}

#[test]
fn theme_modes_decide_darkness() {
    assert!(is_dark_for_mode(ThemeMode::System, true));
    assert!(!is_dark_for_mode(ThemeMode::System, false));
    assert!(is_dark_for_mode(ThemeMode::Dark, false));
    assert!(!is_dark_for_mode(ThemeMode::Light, true));
}

#[test]
fn menu_entries_check_the_current_choice() {
    let usage = usage_display_entries(LanguageId::SimplifiedChinese, true, false);
    assert_eq!(usage[0].label, "5 小时额度");
    assert!(usage[0].checked && !usage[1].checked);
    let alerts = alert_entries(LanguageId::English, 20);
    assert_eq!(alerts.iter().map(|e| e.id).collect::<Vec<_>>(), vec![80, 81, 82, 83]);
    assert_eq!(alerts[2].label, "20% remaining");
    assert!(alerts[2].checked && !alerts[0].checked);
    let freq = poll_interval_entries(300_000, ["1m", "5m", "15m", "1h"]);
    assert!(freq[1].checked && !freq[2].checked);
    assert_eq!(freq[3].id, 13);
    let names: Vec<&str> = vec!["English", "Nederlands", "Español", "Français", "Deutsch", "日本語", "한국어", "简体中文", "繁體中文", "Русский", "Português (Brasil)"];
    let langs = language_entries(Some(LanguageId::German), "System", &names);
    assert_eq!(langs.len(), 12);
    assert!(!langs[0].checked);
    assert_eq!(langs[5].id, 45);
    assert!(langs[5].checked);
    assert_eq!(langs[8].label, "简体中文");
    assert_eq!(langs[8].id, 51);
    assert_eq!(style_menu_label(LanguageId::Japanese), "スタイル...");
}

#[test]
fn version_entry_names_updates_or_the_store() {
    assert_eq!(version_label("1.0.5", Some("1.0.6"), true), "v1.0.5 --> v1.0.6");
    assert_eq!(version_label("1.0.5", None, true), "v1.0.5");
    assert_eq!(version_label("1.0.5", Some("1.0.6"), false), "v1.0.5 (Microsoft Store)");
}

#[test]
fn diagnose_flag_is_found_after_the_program_name() {
    let args = |v: &[&str]| v.iter().map(|s| s.to_string()).collect::<Vec<String>>();
    assert!(diagnose_requested(&args(&["app.exe", "--diagnose"])));
    assert!(!diagnose_requested(&args(&["--diagnose"])));
    assert!(!diagnose_requested(&args(&["app.exe", "--Diagnose"])));
    assert!(!diagnose_requested(&Vec::new()));
}

#[test]
fn widget_lines_split_at_the_double_space() {
    assert_eq!(split_value_text("19%  22:13"), ("19%".to_string(), Some("22:13".to_string())));
    assert_eq!(split_value_text("19%"), ("19%".to_string(), None));
    assert_eq!(split_value_text("a b  c  d"), ("a b".to_string(), Some("c  d".to_string())));
    assert_eq!(split_value_text("  "), (String::new(), Some(String::new())));
}

#[test]
fn wide_strings_are_nul_terminated_utf16() {
    for s in ["", "Segoe UI", "额度", "😀x"] {
        let mut expected: Vec<u16> = s.encode_utf16().collect();
        expected.push(0);
        assert_eq!(wide_str(s), expected);
    }
}

#[test]
fn file_times_count_ticks_since_1601() {
    let (low, high) = file_time_from_unix_seconds(0).unwrap();
    let ticks = ((high as u64) << 32) | low as u64;
    assert_eq!(ticks, 116_444_736_000_000_000);
    assert_eq!(file_time_from_unix_seconds(u64::MAX), None);
    assert_eq!(file_time_from_unix_seconds(u64::MAX / 1_000), None);
}

#[test]
fn startup_paths_compare_without_ascii_case() {
    assert!(eq_ignore_ascii_case("C:\\Apps\\Codex.exe", "c:\\apps\\CODEX.EXE"));
    assert!(!eq_ignore_ascii_case("C:\\Apps\\Codex.exe", "C:\\Apps\\Codex.ex"));
    assert!(!eq_ignore_ascii_case("É", "é"));
}

#[test]
fn editor_state_and_buttons() {
    let state = EditorState {
        section: Section::Panel,
        editor: EditorSelection::Blur,
        dragging_slider: Some(SliderKind::Blur),
    };
    let next = select_section(state, Section::Text);
    assert_eq!(next.editor, EditorSelection::Color(StyleColorTarget::QuotaType));
    assert_eq!(next.dragging_slider, None);
    let next = select_section(state, Section::Preset);
    assert_eq!(next.editor, EditorSelection::Blur);
    let next = select_editor(state, EditorSelection::Color(StyleColorTarget::Error));
    assert_eq!(next.section, Section::Panel);
    let grey = |v| Color::rgba(v, v, v, 255);
    let palette = ButtonPalette {
        normal: grey(1),
        hover: grey(2),
        pressed: grey(3),
        selected: grey(4),
        selected_hover: grey(5),
        selected_pressed: grey(6),
    };
    let t = HitTarget::Reset;
    assert_eq!(button_background(t, false, Some(t), Some(t), palette), grey(3));
    assert_eq!(button_background(t, true, Some(t), None, palette), grey(5));
    assert_eq!(button_background(t, true, None, Some(HitTarget::Close), palette), grey(4));
    assert_eq!(button_background(t, false, None, None, palette), grey(1));
    assert_eq!(message_for_target(HitTarget::Theme(ThemeMode::Light)), Some((0x8000 + 123, 2)));
    assert_eq!(message_for_target(HitTarget::Preset(ThemePreset::Forest)), Some((0x8000 + 126, 2)));
    assert_eq!(message_for_target(HitTarget::Close), None);
    assert_eq!(section_label(Section::Progress, LanguageId::SimplifiedChinese), Some("进度条"));
    assert_eq!(section_label(Section::Json, LanguageId::English), None);
    assert_eq!(row_label(EditorSelection::Blur, LanguageId::English), "Frosted intensity");
}

#[test]
fn sliders_set_channels_or_strength() {
    let current = Color::rgba(10, 20, 30, 40);
    let color = EditorSelection::Color(StyleColorTarget::Remaining);
    assert_eq!(
        slider_change(96, Section::Text, color, SliderKind::Green, 676, current),
        SliderChange::Color(StyleColorTarget::Remaining, Color::rgba(10, 255, 30, 40))
    );
    assert_eq!(
        slider_change(96, Section::Text, color, SliderKind::Alpha, 0, current),
        SliderChange::Color(StyleColorTarget::Remaining, Color::rgba(10, 20, 30, 0))
    );
    assert_eq!(
        slider_change(96, Section::Panel, EditorSelection::Blur, SliderKind::Blur, 646, current),
        SliderChange::Blur(100)
    );
    assert_eq!(
        slider_change(96, Section::Text, EditorSelection::Blur, SliderKind::Blur, 646, current),
        SliderChange::Nothing
    );
}

#[test]
fn editor_inputs_follow_the_page_and_row() {
    let state = |section, editor| EditorState { section, editor, dragging_slider: None };
    let color = EditorSelection::Color(StyleColorTarget::Error);
    assert_eq!(editor_inputs_shown(state(Section::Text, color)), (true, false));
    assert_eq!(editor_inputs_shown(state(Section::Preset, color)), (false, false));
    assert_eq!(editor_inputs_shown(state(Section::Panel, EditorSelection::Blur)), (false, true));
    let layout = hex_edit_layout(96, Section::Progress);
    assert_eq!(layout.len(), 11);
    assert_eq!(layout[6], Some(hex_edit_rect(96, 0)));
    assert_eq!(layout[9], Some(hex_edit_rect(96, 3)));
    assert_eq!(layout[0], None);
    assert_eq!(layout[10], None);
    assert!(hex_edit_layout(96, Section::Preset).iter().all(|r| r.is_none()));
}

#[test]
fn version_entry_is_grayed_only_in_store_builds() {
    let github = version_entry("1.2.0", Some("1.3.0"), true);
    assert_eq!(github.id, 60);
    assert_eq!(github.label, "v1.2.0 --> v1.3.0");
    assert!(!github.grayed);
    assert!(!github.checked);
    let store = version_entry("1.2.0", Some("1.3.0"), false);
    assert_eq!(store.id, 60);
    assert_eq!(store.label, "v1.2.0 (Microsoft Store)");
    assert!(store.grayed);
}

fn main_state() -> MainState {
    MainState {
        poll_interval_ms: 900_000,
        alert_threshold_percent: 20,
        theme_mode: ThemeMode::System,
        is_dark: true,
        appearance_preset: AppearancePreset::Compact,
        language_override: None,
        tray_offset: 40,
        show_session_window: true,
        show_weekly_window: false,
        force_notify_auth_error: false,
    }
}

#[test]
fn menu_commands_change_state_and_ask_for_work() {
    let s = main_state();
    let (n, a) = main_window_step(s, MenuCommand::PollInterval(60_000), false, true);
    assert_eq!(n.poll_interval_ms, 60_000);
    assert!(a.save_settings && a.restart_poll_timer && !a.render);

    let (n, a) = main_window_step(s, MenuCommand::AlertThreshold(0), false, true);
    assert_eq!(n.alert_threshold_percent, 0);
    assert!(a.clear_notified && !a.collect_alerts && a.save_settings);
    let (_, a) = main_window_step(s, MenuCommand::AlertThreshold(10), false, true);
    assert!(!a.clear_notified && a.collect_alerts);

    let (n, a) = main_window_step(s, MenuCommand::Theme(ThemeMode::Light), true, true);
    assert_eq!(n.theme_mode, ThemeMode::Light);
    assert!(!n.is_dark);
    assert!(a.close_style_editors && a.save_settings && a.render && a.sync_style_window);
    let (n, _) = main_window_step(s, MenuCommand::Theme(ThemeMode::System), false, true);
    assert!(!n.is_dark);

    let (n, a) = main_window_step(s, MenuCommand::Layout(AppearancePreset::Minimal), false, true);
    assert_eq!(n.appearance_preset, AppearancePreset::Minimal);
    assert!(a.refresh_usage_texts && a.hide_hover_tooltip && a.reposition && a.sync_tray_icons);

    let (n, a) = main_window_step(s, MenuCommand::Language(Some(LanguageId::German)), false, true);
    assert_eq!(n.language_override, Some(LanguageId::German));
    assert!(a.apply_language && a.save_settings && a.render);

    let (n, a) = main_window_step(s, MenuCommand::ResetCurrentStyle, false, true);
    assert_eq!(n, s);
    assert!(a.close_style_editors && a.reset_active_style && a.save_settings && a.render);

    let (n, a) = main_window_step(s, MenuCommand::ResetPosition, false, true);
    assert_eq!(n.tray_offset, 0);
    assert!(a.save_settings && a.reposition);

    let (n, a) = main_window_step(s, MenuCommand::Refresh, false, true);
    assert!(n.force_notify_auth_error);
    assert!(a.show_refreshing && a.start_poll && a.render);

    // The only shown window stays shown.
    let (n, a) = main_window_step(s, MenuCommand::ToggleSessionWindow, false, true);
    assert!(n.show_session_window && !n.show_weekly_window);
    assert!(a.save_settings && a.render && a.sync_tray_icons);
    let (n, _) = main_window_step(s, MenuCommand::ToggleWeeklyWindow, false, true);
    assert!(n.show_session_window && n.show_weekly_window);

    let (_, a) = main_window_step(s, MenuCommand::CheckUpdate, false, false);
    assert!(!a.check_update);
    let (_, a) = main_window_step(s, MenuCommand::CheckUpdate, false, true);
    assert!(a.check_update);
    let (_, a) = main_window_step(s, MenuCommand::EditColor(StyleColorTarget::Error), false, true);
    assert_eq!(a.open_color_editor, Some(StyleColorTarget::Error));
    let (_, a) = main_window_step(s, MenuCommand::Exit, false, true);
    assert!(a.quit && !a.save_settings);
}

#[test]
fn style_previews_change_only_the_current_theme() {
    let mut styles = StyleSettings::default();
    let light_before = styles.light.clone();
    let packed = pack_color(Color::rgba(0x0A, 0x14, 0x1E, 0x80));
    apply_style_preview(&mut styles, true, StylePreview::Color(5, packed));
    assert_eq!(styles.dark.error, "#0A141E80");
    assert_eq!(styles.light.error, light_before.error);

    let dark_before = styles.dark.clone();
    apply_style_preview(&mut styles, true, StylePreview::Color(11, packed));
    assert_eq!(styles.dark.error, dark_before.error);
    assert_eq!(styles.dark.panel_background, dark_before.panel_background);

    apply_style_preview(&mut styles, false, StylePreview::Blur(0x140));
    assert_eq!(styles.light.panel_frosted_strength, 64);
    apply_style_preview(&mut styles, false, StylePreview::Blur(250));
    assert_eq!(styles.light.panel_frosted_strength, 100);
    assert_eq!(styles.dark.panel_frosted_strength, dark_before.panel_frosted_strength);
}

#[test]
fn hex_boxes_apply_flag_or_wait() {
    let mut style = ThemeStyle::dark_default();
    let before = style.clone();
    let mut invalid = vec![false; 11];
    let editor = EditorSelection::Color(StyleColorTarget::Error);

    let o = hex_edit_changed(&mut style, &mut invalid, true, editor, StyleColorTarget::Error, "#ZZ");
    assert_eq!(o.preview, None);
    assert!(!invalid[5]);

    let o = hex_edit_changed(&mut style, &mut invalid, false, editor, StyleColorTarget::Error, "#ZZ");
    assert_eq!(o.preview, None);
    assert!(invalid[5]);
    assert_eq!(style.error, before.error);

    let o = hex_edit_changed(&mut style, &mut invalid, false, editor, StyleColorTarget::Error, "#1234");
    assert_eq!(o.preview, None);
    assert!(!invalid[5]);

    let o = hex_edit_changed(&mut style, &mut invalid, false, editor, StyleColorTarget::Error, " 10203040 ");
    assert_eq!(o.preview, Some(Color::rgba(0x10, 0x20, 0x30, 0x40)));
    assert!(o.sync_numeric_edits);
    assert_eq!(style.error, "#10203040");

    let o = hex_edit_changed(&mut style, &mut invalid, false, editor, StyleColorTarget::Remaining, "#abcdef");
    assert_eq!(o.preview, Some(Color::rgba(0xAB, 0xCD, 0xEF, 0xFF)));
    assert!(!o.sync_numeric_edits);
    assert_eq!(style.remaining, "#ABCDEFFF");

    invalid[3] = true;
    assert_eq!(hex_edit_left(&style, &mut invalid, StyleColorTarget::Remaining), "#ABCDEFFF");
    assert!(!invalid[3]);
}
