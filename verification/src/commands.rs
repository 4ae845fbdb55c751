use vstd::prelude::*;

use crate::appearance::AppearancePreset;
use crate::language::LanguageId;
use crate::settings_file::{POLL_15_MIN, POLL_1_HOUR, POLL_1_MIN, POLL_5_MIN};
use crate::style::{StyleColorTarget, ThemeMode};
use crate::text::{push_str, to_string};

verus! {

/// A command of the widget's context menu.
#[derive(Clone, Copy, Debug, PartialEq, Eq, Structural)]
pub enum MenuCommand {
    Refresh,
    Exit,
    CheckUpdate,
    OpenReleases,
    ResetPosition,
    ToggleStartWithWindows,
    PollInterval(u32),
    ToggleSessionWindow,
    ToggleWeeklyWindow,
    AlertThreshold(u8),
    Layout(AppearancePreset),
    Theme(ThemeMode),
    OpenStyleSettings,
    EditColor(StyleColorTarget),
    EditBlur,
    ResetCurrentStyle,
    Language(Option<LanguageId>),
}

/// The command identifier of each language's menu entry.
pub open spec fn language_command_id(language: LanguageId) -> u16 {
    match language {
        LanguageId::English => 41,
        LanguageId::Dutch => 42,
        LanguageId::Spanish => 43,
        LanguageId::French => 44,
        LanguageId::German => 45,
        LanguageId::Japanese => 46,
        LanguageId::Korean => 47,
        LanguageId::TraditionalChinese => 48,
        LanguageId::Russian => 49,
        LanguageId::PortugueseBrazil => 50,
        LanguageId::SimplifiedChinese => 51,
    }
}

/// The command identifier of each colour setting's menu entry.
pub open spec fn color_command_id(target: StyleColorTarget) -> u16 {
    match target {
        StyleColorTarget::PanelBackground => 100,
        StyleColorTarget::PanelBorder => 101,
        StyleColorTarget::QuotaType => 103,
        StyleColorTarget::Remaining => 104,
        StyleColorTarget::ResetTime => 105,
        StyleColorTarget::Error => 106,
        StyleColorTarget::ProgressHigh => 107,
        StyleColorTarget::ProgressMedium => 108,
        StyleColorTarget::ProgressLow => 109,
        StyleColorTarget::ProgressConsumed => 110,
        StyleColorTarget::DragHandle => 111,
    }
}

/// The identifier the menu gives a command, where the menu offers it: the
/// polling intervals and alert thresholds of the menu, any layout, theme,
/// colour setting or language.
pub open spec fn command_id(c: MenuCommand) -> Option<u16> {
    match c {
        MenuCommand::Refresh => Some(1u16),
        MenuCommand::Exit => Some(2u16),
        MenuCommand::CheckUpdate => Some(60u16),
        MenuCommand::OpenReleases => Some(61u16),
        MenuCommand::ResetPosition => Some(30u16),
        MenuCommand::ToggleStartWithWindows => Some(20u16),
        MenuCommand::PollInterval(ms) => if ms == POLL_1_MIN {
            Some(10u16)
        } else if ms == POLL_5_MIN {
            Some(11u16)
        } else if ms == POLL_15_MIN {
            Some(12u16)
        } else if ms == POLL_1_HOUR {
            Some(13u16)
        } else {
            None
        },
        MenuCommand::ToggleSessionWindow => Some(71u16),
        MenuCommand::ToggleWeeklyWindow => Some(72u16),
        MenuCommand::AlertThreshold(t) => if t == 0 {
            Some(80u16)
        } else if t == 10 {
            Some(81u16)
        } else if t == 20 {
            Some(82u16)
        } else if t == 30 {
            Some(83u16)
        } else {
            None
        },
        MenuCommand::Layout(p) => match p {
            AppearancePreset::Compact => Some(91u16),
            AppearancePreset::Minimal => Some(92u16),
        },
        MenuCommand::Theme(m) => match m {
            ThemeMode::System => Some(93u16),
            ThemeMode::Dark => Some(94u16),
            ThemeMode::Light => Some(95u16),
        },
        MenuCommand::OpenStyleSettings => Some(96u16),
        MenuCommand::EditColor(t) => Some(color_command_id(t)),
        MenuCommand::EditBlur => Some(102u16),
        MenuCommand::ResetCurrentStyle => Some(112u16),
        MenuCommand::Language(l) => match l {
            None => Some(40u16),
            Some(l) => Some(language_command_id(l)),
        },
    }
}

/// The command of a menu identifier, if it names one.
pub fn decode_menu_command(id: u16) -> (c: Option<MenuCommand>)
    ensures
        match c {
            Some(cmd) => command_id(cmd) == Some(id),
            None => forall|cmd: MenuCommand| command_id(cmd) != Some(id),
        },
{
    let c = match id {
        1 => Some(MenuCommand::Refresh),
        2 => Some(MenuCommand::Exit),
        10 => Some(MenuCommand::PollInterval(POLL_1_MIN)),
        11 => Some(MenuCommand::PollInterval(POLL_5_MIN)),
        12 => Some(MenuCommand::PollInterval(POLL_15_MIN)),
        13 => Some(MenuCommand::PollInterval(POLL_1_HOUR)),
        20 => Some(MenuCommand::ToggleStartWithWindows),
        30 => Some(MenuCommand::ResetPosition),
        40 => Some(MenuCommand::Language(None)),
        41 => Some(MenuCommand::Language(Some(LanguageId::English))),
        42 => Some(MenuCommand::Language(Some(LanguageId::Dutch))),
        43 => Some(MenuCommand::Language(Some(LanguageId::Spanish))),
        44 => Some(MenuCommand::Language(Some(LanguageId::French))),
        45 => Some(MenuCommand::Language(Some(LanguageId::German))),
        46 => Some(MenuCommand::Language(Some(LanguageId::Japanese))),
        47 => Some(MenuCommand::Language(Some(LanguageId::Korean))),
        48 => Some(MenuCommand::Language(Some(LanguageId::TraditionalChinese))),
        49 => Some(MenuCommand::Language(Some(LanguageId::Russian))),
        50 => Some(MenuCommand::Language(Some(LanguageId::PortugueseBrazil))),
        51 => Some(MenuCommand::Language(Some(LanguageId::SimplifiedChinese))),
        60 => Some(MenuCommand::CheckUpdate),
        61 => Some(MenuCommand::OpenReleases),
        71 => Some(MenuCommand::ToggleSessionWindow),
        72 => Some(MenuCommand::ToggleWeeklyWindow),
        80 => Some(MenuCommand::AlertThreshold(0)),
        81 => Some(MenuCommand::AlertThreshold(10)),
        82 => Some(MenuCommand::AlertThreshold(20)),
        83 => Some(MenuCommand::AlertThreshold(30)),
        91 => Some(MenuCommand::Layout(AppearancePreset::Compact)),
        92 => Some(MenuCommand::Layout(AppearancePreset::Minimal)),
        93 => Some(MenuCommand::Theme(ThemeMode::System)),
        94 => Some(MenuCommand::Theme(ThemeMode::Dark)),
        95 => Some(MenuCommand::Theme(ThemeMode::Light)),
        96 => Some(MenuCommand::OpenStyleSettings),
        100 => Some(MenuCommand::EditColor(StyleColorTarget::PanelBackground)),
        101 => Some(MenuCommand::EditColor(StyleColorTarget::PanelBorder)),
        102 => Some(MenuCommand::EditBlur),
        103 => Some(MenuCommand::EditColor(StyleColorTarget::QuotaType)),
        104 => Some(MenuCommand::EditColor(StyleColorTarget::Remaining)),
        105 => Some(MenuCommand::EditColor(StyleColorTarget::ResetTime)),
        106 => Some(MenuCommand::EditColor(StyleColorTarget::Error)),
        107 => Some(MenuCommand::EditColor(StyleColorTarget::ProgressHigh)),
        108 => Some(MenuCommand::EditColor(StyleColorTarget::ProgressMedium)),
        109 => Some(MenuCommand::EditColor(StyleColorTarget::ProgressLow)),
        110 => Some(MenuCommand::EditColor(StyleColorTarget::ProgressConsumed)),
        111 => Some(MenuCommand::EditColor(StyleColorTarget::DragHandle)),
        112 => Some(MenuCommand::ResetCurrentStyle),
        _ => None,
    };
    proof {
        if c is None {
            assert forall|cmd: MenuCommand| command_id(cmd) != Some(id) by {
                match cmd {
                    MenuCommand::EditColor(t) => {
                        assert(color_command_id(t) != id);
                    },
                    MenuCommand::Language(l) => {
                        match l {
                            Some(x) => {
                                assert(language_command_id(x) != id);
                            },
                            None => {},
                        }
                    },
                    _ => {},
                }
            }
        }
    }
    c
}

/// Law: every command the menu offers is read back from its identifier.
pub proof fn lemma_command_ids_are_distinct(a: MenuCommand, b: MenuCommand)
    requires
        command_id(a) is Some,
        command_id(a) == command_id(b),
    ensures
        a == b,
{
    match a {
        MenuCommand::EditColor(t) => {
            match b {
                MenuCommand::EditColor(u) => {
                    assert(color_command_id(t) == color_command_id(u));
                },
                _ => {},
            }
        },
        MenuCommand::Language(Some(x)) => {
            match b {
                MenuCommand::Language(Some(y)) => {
                    assert(language_command_id(x) == language_command_id(y));
                },
                _ => {},
            }
        },
        _ => {},
    }
}

/// The usage windows shown after toggling one from the menu. Hiding the only
/// shown window is refused.
pub fn toggle_usage_window(show_session: bool, show_weekly: bool, session: bool) -> (r: (bool, bool))
    ensures
        session && (show_weekly || !show_session) ==> r == (!show_session, show_weekly),
        session && !(show_weekly || !show_session) ==> r == (show_session, show_weekly),
        !session && (show_session || !show_weekly) ==> r == (show_session, !show_weekly),
        !session && !(show_session || !show_weekly) ==> r == (show_session, show_weekly),
        (show_session || show_weekly) ==> (r.0 || r.1),
{
    if session {
        if show_weekly || !show_session {
            return (!show_session, show_weekly);
        }
    } else {
        if show_session || !show_weekly {
            return (show_session, !show_weekly);
        }
    }
    (show_session, show_weekly)
}

/// Whether the widget is dark after choosing a theme mode: the system's
/// choice in system mode.
pub fn is_dark_for_mode(mode: ThemeMode, system_dark: bool) -> (dark: bool)
    ensures
        dark == match mode {
            ThemeMode::System => system_dark,
            ThemeMode::Dark => true,
            ThemeMode::Light => false,
        },
{
    match mode {
        ThemeMode::System => system_dark,
        ThemeMode::Dark => true,
        ThemeMode::Light => false,
    }
}

/// A plain entry of the context menu.
#[derive(Clone, Debug)]
pub struct MenuEntry {
    pub id: u16,
    pub label: String,
    pub checked: bool,
    pub grayed: bool,
}

/// The labels of the usage-window and alert submenus and of the style entry.
pub open spec fn usage_menu_label(zh: bool, session: bool) -> Seq<char> {
    if session {
        if zh { "5 小时额度"@ } else { "5-hour quota"@ }
    } else {
        if zh { "每周额度"@ } else { "Weekly quota"@ }
    }
}

/// The entries of the usage-display submenu, each checked while its window
/// is shown.
pub fn usage_display_entries(language: LanguageId, show_session: bool, show_weekly: bool) -> (v: Vec<MenuEntry>)
    ensures
        v@.len() == 2,
        v@[0].id == 71 && v@[0].checked == show_session && !v@[0].grayed,
        v@[0].label@ == usage_menu_label(language == LanguageId::SimplifiedChinese, true),
        v@[1].id == 72 && v@[1].checked == show_weekly && !v@[1].grayed,
        v@[1].label@ == usage_menu_label(language == LanguageId::SimplifiedChinese, false),
{
    let zh = language == LanguageId::SimplifiedChinese;
    let session = MenuEntry {
        id: 71,
        label: to_string(if zh { "5 小时额度" } else { "5-hour quota" }),
        checked: show_session,
        grayed: false,
    };
    let weekly = MenuEntry {
        id: 72,
        label: to_string(if zh { "每周额度" } else { "Weekly quota" }),
        checked: show_weekly,
        grayed: false,
    };
    vec![session, weekly]
}

/// The label of the alert entry for `threshold`.
pub open spec fn alert_menu_label(zh: bool, threshold: u8) -> Seq<char> {
    if threshold == 0 {
        if zh { "关闭"@ } else { "Off"@ }
    } else if threshold == 10 {
        if zh { "剩余 10%"@ } else { "10% remaining"@ }
    } else if threshold == 20 {
        if zh { "剩余 20%"@ } else { "20% remaining"@ }
    } else {
        if zh { "剩余 30%"@ } else { "30% remaining"@ }
    }
}

/// The entries of the alert submenu (off, 10, 20, 30 percent), the current
/// threshold checked.
pub fn alert_entries(language: LanguageId, current: u8) -> (v: Vec<MenuEntry>)
    ensures
        v@.len() == 4,
        forall|i: int|
            0 <= i < 4 ==> {
                let t: u8 = (i * 10) as u8;
                &&& (#[trigger] v@[i]).id == 80 + i
                &&& v@[i].checked == (current == t)
                &&& !v@[i].grayed
                &&& v@[i].label@ == alert_menu_label(language == LanguageId::SimplifiedChinese, t)
            },
{
    let zh = language == LanguageId::SimplifiedChinese;
    let mut v: Vec<MenuEntry> = Vec::new();
    let mut i: u16 = 0;
    while i < 4
        invariant
            i <= 4,
            zh == (language == LanguageId::SimplifiedChinese),
            v@.len() == i,
            forall|k: int|
                0 <= k < i ==> {
                    let t: u8 = (k * 10) as u8;
                    &&& (#[trigger] v@[k]).id == 80 + k
                    &&& v@[k].checked == (current == t)
                    &&& !v@[k].grayed
                    &&& v@[k].label@ == alert_menu_label(zh, t)
                },
        decreases 4 - i,
    {
        let t: u8 = (i * 10) as u8;
        let label: &str = if t == 0 {
            if zh { "关闭" } else { "Off" }
        } else if t == 10 {
            if zh { "剩余 10%" } else { "10% remaining" }
        } else if t == 20 {
            if zh { "剩余 20%" } else { "20% remaining" }
        } else {
            if zh { "剩余 30%" } else { "30% remaining" }
        };
        v.push(MenuEntry { id: 80 + i, label: to_string(label), checked: current == t, grayed: false });
        i = i + 1;
    }
    v
}

/// The entries of the polling submenu, the current interval checked; the
/// labels are given in menu order.
pub fn poll_interval_entries(current_interval: u32, labels: [&str; 4]) -> (v: Vec<MenuEntry>)
    ensures
        v@.len() == 4,
        forall|i: int|
            0 <= i < 4 ==> {
                let ms = seq![POLL_1_MIN, POLL_5_MIN, POLL_15_MIN, POLL_1_HOUR][i];
                &&& (#[trigger] v@[i]).id == 10 + i
                &&& v@[i].checked == (current_interval == ms)
                &&& !v@[i].grayed
                &&& v@[i].label@ == labels@[i]@
            },
{
    let intervals = [POLL_1_MIN, POLL_5_MIN, POLL_15_MIN, POLL_1_HOUR];
    let mut v: Vec<MenuEntry> = Vec::new();
    let mut i: usize = 0;
    while i < 4
        invariant
            i <= 4,
            intervals@ == seq![POLL_1_MIN, POLL_5_MIN, POLL_15_MIN, POLL_1_HOUR],
            v@.len() == i,
            forall|k: int|
                0 <= k < i ==> {
                    &&& (#[trigger] v@[k]).id == 10 + k
                    &&& v@[k].checked == (current_interval == intervals@[k])
                    &&& !v@[k].grayed
                    &&& v@[k].label@ == labels@[k]@
                },
        decreases 4 - i,
    {
        v.push(MenuEntry {
            id: 10 + i as u16,
            label: to_string(labels[i]),
            checked: current_interval == intervals[i],
            grayed: false,
        });
        i = i + 1;
    }
    v
}

/// The entries of the language submenu: the system default, then each
/// language under its own name (given in `LanguageId::all` order), the choice
/// in force checked.
pub fn language_entries(current: Option<LanguageId>, system_label: &str, names: &Vec<&str>) -> (v: Vec<MenuEntry>)
    requires
        names@.len() == 11,
    ensures
        v@.len() == 12,
        v@[0].id == 40 && v@[0].checked == (current is None) && v@[0].label@ == system_label@,
        forall|i: int|
            1 <= i < 12 ==> {
                let l = crate::language::all_languages()[i - 1];
                &&& (#[trigger] v@[i]).id == language_command_id(l)
                &&& v@[i].checked == (current == Some(l))
                &&& !v@[i].grayed
                &&& v@[i].label@ == names@[i - 1]@
            },
{
    let languages = LanguageId::all();
    let mut v: Vec<MenuEntry> = Vec::new();
    v.push(MenuEntry { id: 40, label: to_string(system_label), checked: current.is_none(), grayed: false });
    let mut i: usize = 0;
    while i < 11
        invariant
            i <= 11,
            languages@ == crate::language::all_languages(),
            names@.len() == 11,
            v@.len() == i + 1,
            v@[0].id == 40 && v@[0].checked == (current is None) && v@[0].label@ == system_label@,
            forall|k: int|
                1 <= k < i + 1 ==> {
                    let l = crate::language::all_languages()[k - 1];
                    &&& (#[trigger] v@[k]).id == language_command_id(l)
                    &&& v@[k].checked == (current == Some(l))
                    &&& !v@[k].grayed
                    &&& v@[k].label@ == names@[k - 1]@
                },
        decreases 11 - i,
    {
        let language = languages[i];
        let id: u16 = match language {
            LanguageId::English => 41,
            LanguageId::Dutch => 42,
            LanguageId::Spanish => 43,
            LanguageId::French => 44,
            LanguageId::German => 45,
            LanguageId::Japanese => 46,
            LanguageId::Korean => 47,
            LanguageId::TraditionalChinese => 48,
            LanguageId::Russian => 49,
            LanguageId::PortugueseBrazil => 50,
            LanguageId::SimplifiedChinese => 51,
        };
        let checked = match current {
            Some(c) => c == language,
            None => false,
        };
        v.push(MenuEntry { id, label: to_string(names[i]), checked, grayed: false });
        i = i + 1;
    }
    v
}

/// The name of the style entry in `language`.
pub open spec fn style_menu_label_text(language: LanguageId) -> Seq<char> {
    match language {
        LanguageId::SimplifiedChinese => "样式..."@,
        LanguageId::TraditionalChinese => "樣式..."@,
        LanguageId::Japanese => "スタイル..."@,
        LanguageId::Korean => "스타일..."@,
        LanguageId::Dutch => "Stijl..."@,
        LanguageId::Spanish => "Estilo..."@,
        LanguageId::French => "Style..."@,
        LanguageId::German => "Stil..."@,
        LanguageId::Russian => "Стиль..."@,
        LanguageId::PortugueseBrazil => "Estilo..."@,
        LanguageId::English => "Style..."@,
    }
}

/// The name of the style entry.
pub fn style_menu_label(language: LanguageId) -> (s: &'static str)
    ensures
        s@ == style_menu_label_text(language),
{
    match language {
        LanguageId::SimplifiedChinese => "样式...",
        LanguageId::TraditionalChinese => "樣式...",
        LanguageId::Japanese => "スタイル...",
        LanguageId::Korean => "스타일...",
        LanguageId::Dutch => "Stijl...",
        LanguageId::Spanish => "Estilo...",
        LanguageId::French => "Style...",
        LanguageId::German => "Stil...",
        LanguageId::Russian => "Стиль...",
        LanguageId::PortugueseBrazil => "Estilo...",
        LanguageId::English => "Style...",
    }
}

/// The version entry: `v<version>`, with the newer version after an arrow
/// where one is available, in builds that update themselves from GitHub;
/// a store build names the store instead.
pub open spec fn version_label_text(version: Seq<char>, update: Option<Seq<char>>, github_updates: bool) -> Seq<char> {
    if github_updates {
        match update {
            Some(latest) => "v"@ + version + " --> v"@ + latest,
            None => "v"@ + version,
        }
    } else {
        "v"@ + version + " (Microsoft Store)"@
    }
}

/// The version entry's text.
pub fn version_label(version: &str, update: Option<&str>, github_updates: bool) -> (s: String)
    ensures
        s@ == version_label_text(
            version@,
            match update {
                Some(u) => Some(u@),
                None => None,
            },
            github_updates,
        ),
{
    let mut s = to_string("v");
    push_str(&mut s, version);
    if github_updates {
        match update {
            Some(latest) => {
                push_str(&mut s, " --> v");
                push_str(&mut s, latest);
            },
            None => {},
        }
    } else {
        push_str(&mut s, " (Microsoft Store)");
    }
    s
}

/// The version entry of the settings submenu. It leads to an update only in
/// builds that update themselves from GitHub, and is grayed otherwise.
pub fn version_entry(version: &str, update: Option<&str>, github_updates: bool) -> (e: MenuEntry)
    ensures
        e.id == 60,
        e.label@ == version_label_text(
            version@,
            match update {
                Some(u) => Some(u@),
                None => None,
            },
            github_updates,
        ),
        !e.checked,
        e.grayed == !github_updates,
{
    MenuEntry {
        id: 60,
        label: version_label(version, update, github_updates),
        checked: false,
        grayed: !github_updates,
    }
}

/// What the main window's menu commands read and change.
#[derive(Clone, Copy, Debug, PartialEq, Eq, Structural)]
pub struct MainState {
    pub poll_interval_ms: u32,
    pub alert_threshold_percent: u8,
    pub theme_mode: ThemeMode,
    pub is_dark: bool,
    pub appearance_preset: AppearancePreset,
    pub language_override: Option<LanguageId>,
    pub tray_offset: i32,
    pub show_session_window: bool,
    pub show_weekly_window: bool,
    /// Warn about a needed sign-in on the next failed poll.
    pub force_notify_auth_error: bool,
}

/// The work that a menu command leaves to the window, in this order: first
/// the changes of state and the windows to close or open, then saving,
/// placing and drawing.
#[derive(Clone, Copy, Debug, PartialEq, Eq, Structural)]
pub struct MainActions {
    /// Show `...` in both usage windows until the poll answers.
    pub show_refreshing: bool,
    /// Poll now, in the background.
    pub start_poll: bool,
    /// Tear down the backdrop and the event hook, then leave the message loop.
    pub quit: bool,
    /// Start the self-update.
    pub check_update: bool,
    /// Open the releases page in the browser.
    pub open_releases: bool,
    /// Flip whether the widget starts with Windows.
    pub toggle_startup: bool,
    /// Restart the poll timer at the new interval.
    pub restart_poll_timer: bool,
    /// Forget which low-quota windows were already announced.
    pub clear_notified: bool,
    /// Collect and announce the low-quota windows of the last usage data.
    pub collect_alerts: bool,
    /// Close the colour and blur editors (saving what they changed).
    pub close_style_editors: bool,
    /// Put the current theme's style back to its defaults.
    pub reset_active_style: bool,
    /// Resolve the language from the new override, retitle the window and
    /// rewrite the usage texts.
    pub apply_language: bool,
    /// Rewrite the usage texts for the new layout.
    pub refresh_usage_texts: bool,
    /// Hide the hover tooltip of the minimal layout.
    pub hide_hover_tooltip: bool,
    /// Open the style settings window, or bring it to the front.
    pub open_style_settings: bool,
    /// Open the colour editor of a setting.
    pub open_color_editor: Option<StyleColorTarget>,
    /// Open the frosted-strength editor.
    pub open_blur_editor: bool,
    pub save_settings: bool,
    /// Place the widget on the taskbar again.
    pub reposition: bool,
    pub render: bool,
    pub sync_tray_icons: bool,
    /// Send the style settings window the new theme and layout.
    pub sync_style_window: bool,
}

/// No work at all.
pub open spec fn no_actions() -> MainActions {
    MainActions {
        show_refreshing: false,
        start_poll: false,
        quit: false,
        check_update: false,
        open_releases: false,
        toggle_startup: false,
        restart_poll_timer: false,
        clear_notified: false,
        collect_alerts: false,
        close_style_editors: false,
        reset_active_style: false,
        apply_language: false,
        refresh_usage_texts: false,
        hide_hover_tooltip: false,
        open_style_settings: false,
        open_color_editor: None,
        open_blur_editor: false,
        save_settings: false,
        reposition: false,
        render: false,
        sync_tray_icons: false,
        sync_style_window: false,
    }
}

/// The usage windows shown after toggling one: hiding the only shown window
/// is refused.
pub open spec fn windows_after_toggle(show_session: bool, show_weekly: bool, session: bool) -> (bool, bool) {
    if session {
        if show_weekly || !show_session {
            (!show_session, show_weekly)
        } else {
            (show_session, show_weekly)
        }
    } else {
        if show_session || !show_weekly {
            (show_session, !show_weekly)
        } else {
            (show_session, show_weekly)
        }
    }
}

/// Whether the widget is dark in a theme mode.
pub open spec fn dark_for_mode(mode: ThemeMode, system_dark: bool) -> bool {
    match mode {
        ThemeMode::System => system_dark,
        ThemeMode::Dark => true,
        ThemeMode::Light => false,
    }
}

/// The state and the work after a menu command. `system_dark` is the
/// system's theme; `github_updates` whether this build updates itself.
pub open spec fn main_step(s: MainState, c: MenuCommand, system_dark: bool, github_updates: bool) -> (MainState, MainActions) {
    let none = no_actions();
    match c {
        MenuCommand::Refresh => (
            MainState { force_notify_auth_error: true, ..s },
            MainActions { show_refreshing: true, render: true, start_poll: true, ..none },
        ),
        MenuCommand::Exit => (s, MainActions { quit: true, ..none }),
        MenuCommand::CheckUpdate => (s, MainActions { check_update: github_updates, ..none }),
        MenuCommand::OpenReleases => (s, MainActions { open_releases: true, ..none }),
        MenuCommand::ResetPosition => (
            MainState { tray_offset: 0, ..s },
            MainActions { save_settings: true, reposition: true, ..none },
        ),
        MenuCommand::ToggleStartWithWindows => (s, MainActions { toggle_startup: true, ..none }),
        MenuCommand::PollInterval(ms) => (
            MainState { poll_interval_ms: ms, ..s },
            MainActions { save_settings: true, restart_poll_timer: true, ..none },
        ),
        MenuCommand::ToggleSessionWindow => {
            let w = windows_after_toggle(s.show_session_window, s.show_weekly_window, true);
            (
                MainState { show_session_window: w.0, show_weekly_window: w.1, ..s },
                MainActions { save_settings: true, render: true, sync_tray_icons: true, ..none },
            )
        },
        MenuCommand::ToggleWeeklyWindow => {
            let w = windows_after_toggle(s.show_session_window, s.show_weekly_window, false);
            (
                MainState { show_session_window: w.0, show_weekly_window: w.1, ..s },
                MainActions { save_settings: true, render: true, sync_tray_icons: true, ..none },
            )
        },
        MenuCommand::AlertThreshold(t) => (
            MainState { alert_threshold_percent: t, ..s },
            MainActions { clear_notified: t == 0, collect_alerts: t != 0, save_settings: true, ..none },
        ),
        MenuCommand::Theme(mode) => (
            MainState { theme_mode: mode, is_dark: dark_for_mode(mode, system_dark), ..s },
            MainActions {
                close_style_editors: true,
                save_settings: true,
                render: true,
                sync_style_window: true,
                ..none
            },
        ),
        MenuCommand::Layout(preset) => (
            MainState { appearance_preset: preset, ..s },
            MainActions {
                refresh_usage_texts: true,
                hide_hover_tooltip: true,
                save_settings: true,
                reposition: true,
                render: true,
                sync_tray_icons: true,
                sync_style_window: true,
                ..none
            },
        ),
        MenuCommand::OpenStyleSettings => (
            s,
            MainActions { close_style_editors: true, open_style_settings: true, ..none },
        ),
        MenuCommand::EditColor(t) => (s, MainActions { open_color_editor: Some(t), ..none }),
        MenuCommand::EditBlur => (s, MainActions { open_blur_editor: true, ..none }),
        MenuCommand::ResetCurrentStyle => (
            s,
            MainActions {
                close_style_editors: true,
                reset_active_style: true,
                save_settings: true,
                render: true,
                ..none
            },
        ),
        MenuCommand::Language(l) => (
            MainState { language_override: l, ..s },
            MainActions { apply_language: true, save_settings: true, render: true, ..none },
        ),
    }
}

/// Law: what each menu command does to the main window. A fixed theme
/// decides the dark flag by itself (dark for the dark theme, light for the
/// light one) and only the system theme follows the system; a new refresh
/// interval, alert threshold, layout or language is stored as chosen and
/// saved; resetting the position puts the widget back at the tray; a
/// refresh polls at once and warns again about a needed sign-in; toggling a
/// usage window flips it unless it is the only one shown; and every command
/// leaves the other settings as they were.
pub proof fn lemma_menu_command_effects(
    s: MainState,
    system_dark: bool,
    github_updates: bool,
    ms: u32,
    threshold: u8,
    preset: AppearancePreset,
    language: Option<LanguageId>,
)
    ensures
        main_step(s, MenuCommand::Theme(ThemeMode::Dark), system_dark, github_updates).0 == (
        MainState { theme_mode: ThemeMode::Dark, is_dark: true, ..s }),
        main_step(s, MenuCommand::Theme(ThemeMode::Light), system_dark, github_updates).0 == (
        MainState { theme_mode: ThemeMode::Light, is_dark: false, ..s }),
        main_step(s, MenuCommand::Theme(ThemeMode::System), system_dark, github_updates).0 == (
        MainState { theme_mode: ThemeMode::System, is_dark: system_dark, ..s }),
        main_step(s, MenuCommand::PollInterval(ms), system_dark, github_updates).0 == (MainState {
            poll_interval_ms: ms,
            ..s
        }),
        main_step(s, MenuCommand::PollInterval(ms), system_dark, github_updates).1.restart_poll_timer,
        main_step(s, MenuCommand::PollInterval(ms), system_dark, github_updates).1.save_settings,
        main_step(s, MenuCommand::AlertThreshold(threshold), system_dark, github_updates).0 == (
        MainState { alert_threshold_percent: threshold, ..s }),
        main_step(s, MenuCommand::AlertThreshold(threshold), system_dark, github_updates).1.clear_notified
            == (threshold == 0),
        main_step(s, MenuCommand::AlertThreshold(threshold), system_dark, github_updates).1.collect_alerts
            == (threshold != 0),
        main_step(s, MenuCommand::AlertThreshold(threshold), system_dark, github_updates).1.save_settings,
        main_step(s, MenuCommand::Layout(preset), system_dark, github_updates).0 == (MainState {
            appearance_preset: preset,
            ..s
        }),
        main_step(s, MenuCommand::Layout(preset), system_dark, github_updates).1.save_settings,
        main_step(s, MenuCommand::Layout(preset), system_dark, github_updates).1.reposition,
        main_step(s, MenuCommand::Language(language), system_dark, github_updates).0 == (MainState {
            language_override: language,
            ..s
        }),
        main_step(s, MenuCommand::Language(language), system_dark, github_updates).1.save_settings,
        main_step(s, MenuCommand::ResetPosition, system_dark, github_updates).0 == (MainState {
            tray_offset: 0,
            ..s
        }),
        main_step(s, MenuCommand::ResetPosition, system_dark, github_updates).1.save_settings,
        main_step(s, MenuCommand::Refresh, system_dark, github_updates).0 == (MainState {
            force_notify_auth_error: true,
            ..s
        }),
        main_step(s, MenuCommand::Refresh, system_dark, github_updates).1.start_poll,
        main_step(s, MenuCommand::ToggleSessionWindow, system_dark, github_updates).0 == (MainState {
            show_session_window: if s.show_session_window && !s.show_weekly_window {
                true
            } else {
                !s.show_session_window
            },
            ..s
        }),
        main_step(s, MenuCommand::ToggleWeeklyWindow, system_dark, github_updates).0 == (MainState {
            show_weekly_window: if s.show_weekly_window && !s.show_session_window {
                true
            } else {
                !s.show_weekly_window
            },
            ..s
        }),
        main_step(s, MenuCommand::Exit, system_dark, github_updates).0 == s,
        main_step(s, MenuCommand::Exit, system_dark, github_updates).1.quit,
        main_step(s, MenuCommand::CheckUpdate, system_dark, github_updates).1.check_update
            == github_updates,
        main_step(s, MenuCommand::ResetCurrentStyle, system_dark, github_updates).0 == s,
        main_step(s, MenuCommand::ResetCurrentStyle, system_dark, github_updates).1.reset_active_style,
{
}

fn nothing_to_do() -> (a: MainActions)
    ensures
        a == no_actions(),
{
    MainActions {
        show_refreshing: false,
        start_poll: false,
        quit: false,
        check_update: false,
        open_releases: false,
        toggle_startup: false,
        restart_poll_timer: false,
        clear_notified: false,
        collect_alerts: false,
        close_style_editors: false,
        reset_active_style: false,
        apply_language: false,
        refresh_usage_texts: false,
        hide_hover_tooltip: false,
        open_style_settings: false,
        open_color_editor: None,
        open_blur_editor: false,
        save_settings: false,
        reposition: false,
        render: false,
        sync_tray_icons: false,
        sync_style_window: false,
    }
}

/// Handles a command of the context menu: the main window's new state and
/// the work left to it.
pub fn main_window_step(state: MainState, command: MenuCommand, system_dark: bool, github_updates: bool) -> (r: (
    MainState,
    MainActions,
))
    ensures
        r == main_step(state, command, system_dark, github_updates),
{
    let mut s = state;
    let mut a = nothing_to_do();
    match command {
        MenuCommand::Refresh => {
            s.force_notify_auth_error = true;
            a.show_refreshing = true;
            a.render = true;
            a.start_poll = true;
        },
        MenuCommand::Exit => {
            a.quit = true;
        },
        MenuCommand::CheckUpdate => {
            a.check_update = github_updates;
        },
        MenuCommand::OpenReleases => {
            a.open_releases = true;
        },
        MenuCommand::ResetPosition => {
            s.tray_offset = 0;
            a.save_settings = true;
            a.reposition = true;
        },
        MenuCommand::ToggleStartWithWindows => {
            a.toggle_startup = true;
        },
        MenuCommand::PollInterval(ms) => {
            s.poll_interval_ms = ms;
            a.save_settings = true;
            a.restart_poll_timer = true;
        },
        MenuCommand::ToggleSessionWindow => {
            let w = toggle_usage_window(s.show_session_window, s.show_weekly_window, true);
            s.show_session_window = w.0;
            s.show_weekly_window = w.1;
            a.save_settings = true;
            a.render = true;
            a.sync_tray_icons = true;
        },
        MenuCommand::ToggleWeeklyWindow => {
            let w = toggle_usage_window(s.show_session_window, s.show_weekly_window, false);
            s.show_session_window = w.0;
            s.show_weekly_window = w.1;
            a.save_settings = true;
            a.render = true;
            a.sync_tray_icons = true;
        },
        MenuCommand::AlertThreshold(t) => {
            s.alert_threshold_percent = t;
            a.clear_notified = t == 0;
            a.collect_alerts = t != 0;
            a.save_settings = true;
        },
        MenuCommand::Theme(mode) => {
            s.theme_mode = mode;
            s.is_dark = is_dark_for_mode(mode, system_dark);
            a.close_style_editors = true;
            a.save_settings = true;
            a.render = true;
            a.sync_style_window = true;
        },
        MenuCommand::Layout(preset) => {
            s.appearance_preset = preset;
            a.refresh_usage_texts = true;
            a.hide_hover_tooltip = true;
            a.save_settings = true;
            a.reposition = true;
            a.render = true;
            a.sync_tray_icons = true;
            a.sync_style_window = true;
        },
        MenuCommand::OpenStyleSettings => {
            a.close_style_editors = true;
            a.open_style_settings = true;
        },
        MenuCommand::EditColor(t) => {
            a.open_color_editor = Some(t);
        },
        MenuCommand::EditBlur => {
            a.open_blur_editor = true;
        },
        MenuCommand::ResetCurrentStyle => {
            a.close_style_editors = true;
            a.reset_active_style = true;
            a.save_settings = true;
            a.render = true;
        },
        MenuCommand::Language(l) => {
            s.language_override = l;
            a.apply_language = true;
            a.save_settings = true;
            a.render = true;
        },
    }
    (s, a)
}

/// Whether the command line asks for diagnostic logging: an argument after
/// the program's own name that is `--diagnose`.
pub fn diagnose_requested(args: &Vec<String>) -> (b: bool)
    ensures
        b == exists|i: int| 1 <= i < args@.len() && (#[trigger] args@[i])@ == "--diagnose"@,
{
    let mut i: usize = 1;
    while i < args.len()
        invariant
            1 <= i,
            forall|k: int| 1 <= k < i && k < args@.len() ==> (#[trigger] args@[k])@ != "--diagnose"@,
        decreases args.len() - i,
    {
        if crate::text::str_eq(args[i].as_str(), "--diagnose") {
            return true;
        }
        i = i + 1;
    }
    false
}

} // verus!
