//! Verified core of a taskbar monitor for Codex usage quotas: colour parsing,
//! theme styles and presets, widget layout and placement, the editable JSONC
//! settings model and the settings file, low-quota alerts, the poll loop's
//! decisions, the context and popup menus, the style editor's layout, and
//! the pixel passes of the layered widget.

pub mod text;
pub mod color;
pub mod style;
pub mod language;
pub mod appearance;
pub mod settings_model;
pub mod style_editor;
pub mod widget;
pub mod alerts;
pub mod settings_file;
pub mod popup_menu;
pub mod fonts;
pub mod panel;
pub mod placement;
pub mod poll_cycle;
pub mod editor_layout;
pub mod commands;
pub mod native;
