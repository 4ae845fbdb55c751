use codex_usage_win::language::LanguageId;
use codex_usage_win::settings_model::{
    normalize_hex, strip_jsonc_comments, theme_jsonc, EditableAppearance, EditableGeneral, EditableSettings,
    EditableThemeStyle, EditableUsage,
};
use codex_usage_win::style::ThemeStyle;

fn sample() -> EditableSettings {
    EditableSettings {
        schema_version: 1,
        general: EditableGeneral {
            refresh_interval: "15m".into(),
            show_usage: EditableUsage { session_5h: true, weekly: true },
            quota_alert_percent: 20,
            start_with_windows: true,
            language: "zh-CN".into(),
        },
        appearance: EditableAppearance {
            theme: "system".into(),
            layout: "default".into(),
            dark: EditableThemeStyle::from_theme_style(&ThemeStyle::dark_default()),
            light: EditableThemeStyle::from_theme_style(&ThemeStyle::light_default()),
        },
    }
}

#[test]
fn invalid_business_rules_are_rejected_transactionally() {
    let mut value = sample();
    value.general.show_usage.session_5h = false;
    value.general.show_usage.weekly = false;
    assert!(value.validate_and_normalize().is_err());

    value = sample();
    value.general.quota_alert_percent = 15;
    assert!(value.validate_and_normalize().is_err());
}

#[test]
fn generated_jsonc_contains_comments_for_options() {
    let text = sample().to_jsonc(LanguageId::SimplifiedChinese);
    assert!(text.contains("// 可选：1m | 5m | 15m | 1h"));
    assert!(text.contains("// 格式：#RRGGBB 或 #RRGGBBAA"));
    assert!(text.contains("// 范围：0–100"));
}

#[test]
fn strip_keeps_urls_inside_strings() {
    let stripped = strip_jsonc_comments(r#"{ "value": "https://example.com//x" // note
}"#)
    .unwrap();
    assert!(stripped.contains("https://example.com//x"));
    assert_eq!(stripped, "{ \"value\": \"https://example.com//x\"        \n}");
}

#[test]
fn unterminated_block_comment_is_an_error() {
    assert_eq!(strip_jsonc_comments("{ /* open").unwrap_err(), "unterminated block comment");
    assert_eq!(strip_jsonc_comments("a/*b\nc*/d").unwrap(), "a   \n   d");
    assert_eq!(strip_jsonc_comments(r#""a\"//b""#).unwrap(), r#""a\"//b""#);
}

#[test]
fn hex_values_are_checked_and_canonicalized() {
    assert_eq!(normalize_hex(" #123456 ", "p").unwrap(), "#123456FF");
    assert_eq!(normalize_hex("#abcdef80", "p").unwrap(), "#ABCDEF80");
    assert_eq!(normalize_hex("123456", "x.y").unwrap_err(), "x.y: expected #RRGGBB or #RRGGBBAA");
    assert_eq!(normalize_hex("#12345G", "p").unwrap_err(), "p: expected #RRGGBB or #RRGGBBAA");
    assert_eq!(normalize_hex("#+1+2+3", "p").unwrap_err(), "p: expected #RRGGBB or #RRGGBBAA");
}

#[test]
fn each_rule_reports_its_own_error() {
    let mut v = sample();
    v.schema_version = 2;
    assert_eq!(v.validate_and_normalize().unwrap_err(), "schema_version: expected 1, got 2");
    let mut v = sample();
    v.general.refresh_interval = "2m".into();
    assert_eq!(
        v.validate_and_normalize().unwrap_err(),
        "general.refresh_interval: allowed values are 1m, 5m, 15m, 1h"
    );
    let mut v = sample();
    v.general.language = "xx".into();
    assert_eq!(v.validate_and_normalize().unwrap_err(), "general.language: unsupported language code 'xx'");
    let mut v = sample();
    v.general.language = "system".into();
    assert!(v.validate_and_normalize().is_ok());
    let mut v = sample();
    v.appearance.theme = "blue".into();
    assert_eq!(v.validate_and_normalize().unwrap_err(), "appearance.theme: allowed values are system, dark, light");
    let mut v = sample();
    v.appearance.layout = "compact".into();
    assert_eq!(v.validate_and_normalize().unwrap_err(), "appearance.layout: allowed values are default, minimal");
    let mut v = sample();
    v.appearance.light.frosted_strength = 101;
    assert_eq!(
        v.validate_and_normalize().unwrap_err(),
        "appearance.light.frosted_strength: allowed range is 0-100"
    );
    let mut v = sample();
    v.appearance.dark.error = "red".into();
    assert_eq!(
        v.validate_and_normalize().unwrap_err(),
        "appearance.dark.error: expected #RRGGBB or #RRGGBBAA"
    );
}

#[test]
fn validated_settings_validate_again_unchanged() {
    let mut v = sample();
    v.appearance.dark.panel_background = " #123456 ".into();
    let once = v.validate_and_normalize().unwrap();
    assert_eq!(once.appearance.dark.panel_background, "#123456FF");
    let twice = once.validate_and_normalize().unwrap();
    assert_eq!(twice.appearance.dark.panel_background, once.appearance.dark.panel_background);
    assert_eq!(twice.general.language, once.general.language);
}

#[test]
fn english_jsonc_quotes_and_escapes_values() {
    let mut v = sample();
    v.general.language = "a\"b\\c\n".into();
    let text = v.to_jsonc(LanguageId::English);
    assert!(text.contains("\"language\": \"a\\\"b\\\\c\\n\""));
    assert!(text.contains("// Options: 1m | 5m | 15m | 1h"));
    assert!(text.contains("      \"frosted_strength\": 0,\n\n      // Quota-type text color"));
    assert!(text.ends_with("  \"schema_version\": 1\n}\n"));
}

#[test]
fn editable_style_round_trips_through_theme_style() {
    let style = ThemeStyle::preset(false, codex_usage_win::style::ThemePreset::Ocean);
    let editable = EditableThemeStyle::from_theme_style(&style);
    let back = editable.to_theme_style();
    assert!(back.same_as(&style));
}

#[test]
fn jsonc_text_round_trips_through_strip_and_validation() {
    let mut value = sample();
    value.appearance.dark.panel_background = "#123456".into();
    let text = value.to_jsonc(LanguageId::SimplifiedChinese);
    let stripped = strip_jsonc_comments(&text).unwrap();
    let json: serde_json::Value = serde_json::from_str(&stripped).unwrap();
    assert_eq!(json["appearance"]["dark"]["panel_background"], "#123456");
    assert_eq!(json["schema_version"], 1);
    let normalized = value.validate_and_normalize().unwrap();
    assert_eq!(normalized.appearance.dark.panel_background, "#123456FF");
}

#[test]
fn stripping_comments_twice_changes_nothing_more() {
    let text = "{ \"a\": 1, // one\n/* two\n*/ \"b\": \"//x\" }/ /";
    let once = strip_jsonc_comments(text).unwrap();
    assert_eq!(once, "{ \"a\": 1,       \n      \n   \"b\": \"//x\" }/ /");
    assert_eq!(strip_jsonc_comments(&once).unwrap(), once);
}

#[test]
fn theme_jsonc_lines_are_indented_and_end_with_the_last_value() {
    let mut style = EditableThemeStyle::from_theme_style(&ThemeStyle::dark_default());
    style.error = "line\nbreak".into();
    for zh in [false, true] {
        let text = theme_jsonc(&style, zh, 6);
        for line in text.split('\n') {
            assert!(line.is_empty() || line.starts_with("      "), "{line:?}");
        }
        assert!(text.ends_with('"'));
        assert!(text.contains("\"error\": \"line\\nbreak\","));
    }
}

#[test]
fn theme_jsonc_has_one_key_line_per_field_in_order() {
    let style = EditableThemeStyle::from_theme_style(&ThemeStyle::light_default());
    let text = theme_jsonc(&style, true, 4);
    let lines: Vec<&str> = text.split('\n').collect();
    assert_eq!(lines.len(), 47);
    let keys = [
        "panel_background", "panel_border", "frosted_strength", "quota_type", "remaining",
        "reset_time", "error", "progress_high", "progress_medium", "progress_low",
        "progress_consumed", "drag_handle",
    ];
    for (i, line) in lines.iter().enumerate() {
        match i % 4 {
            0 | 1 => assert!(line.starts_with("    // ")),
            2 => {
                let key = keys[i / 4];
                assert!(line.starts_with(&format!("    \"{key}\": ")));
                assert_eq!(line.ends_with(','), i / 4 < 11);
            }
            _ => assert!(line.is_empty()),
        }
    }
}
