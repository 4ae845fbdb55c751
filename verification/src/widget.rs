use vstd::prelude::*;

use crate::appearance::{
    preset_metrics, reset_hint_text, taskbar_value_text, AppearancePreset, LocalTime, UsageWindowKind,
};
use crate::color::hex_cut_panics;
use crate::style::{color_of_text, color_text, StyleColorTarget, ThemeStyle};
use crate::language::LanguageId;
use crate::style_editor::{contains_point, Rect};
use crate::text::{push_str, to_string};

verus! {

/// GDI text quality without antialiasing.
pub const NONANTIALIASED_QUALITY_VALUE: u32 = 3;

/// GDI ClearType text quality.
pub const CLEARTYPE_QUALITY_VALUE: u32 = 5;

/// `n / d` rounded to the nearest integer, halves away from zero (`d` > 0).
pub open spec fn div_round(n: int, d: int) -> int {
    if n >= 0 {
        (n + d / 2) / d
    } else {
        -((-n + d / 2) / d)
    }
}

/// A length at 96 DPI scaled to `dpi`, rounded to nearest (halves away from
/// zero) and saturated to the 32-bit range.
pub open spec fn dpi_scaled(px: int, dpi: int) -> int {
    let v = div_round(px * dpi, 96);
    if v > i32::MAX {
        i32::MAX as int
    } else if v < i32::MIN {
        i32::MIN as int
    } else {
        v
    }
}

/// Scales a length designed at 96 DPI to `dpi` (the widget's `sc`). The
/// product of the two stays within 2^52 in magnitude, the range in which a
/// double-precision computation of the same rounding is exact.
pub fn scale_px(px: i32, dpi: u32) -> (v: i32)
    requires
        -0x10_0000_0000_0000 <= px * dpi <= 0x10_0000_0000_0000,
    ensures
        v == dpi_scaled(px as int, dpi as int),
{
    let n: i64 = px as i64 * dpi as i64;
    let q: i64 = if n >= 0 {
        (n + 48) / 96
    } else {
        -((-n + 48) / 96)
    };
    if q > i32::MAX as i64 {
        i32::MAX
    } else if q < i32::MIN as i64 {
        i32::MIN
    } else {
        q as i32
    }
}

/// Text quality for the layered widget: ClearType only on an opaque panel
/// without composition blur, since its glyph edges are blended against the
/// panel colour.
pub fn text_quality_for_layered_surface(panel_alpha: u8, composition_blur_active: bool) -> (q: u32)
    ensures
        q == if composition_blur_active || panel_alpha < 255 {
            NONANTIALIASED_QUALITY_VALUE
        } else {
            CLEARTYPE_QUALITY_VALUE
        },
{
    if composition_blur_active || panel_alpha < u8::MAX {
        NONANTIALIASED_QUALITY_VALUE
    } else {
        CLEARTYPE_QUALITY_VALUE
    }
}

/// Top of the widget centred vertically in the anchor (at the anchor's top
/// when the widget is taller).
pub fn compute_anchor_y(anchor_top: i32, anchor_height: i32, widget_height: i32) -> (y: i32)
    requires
        i32::MIN <= anchor_height - widget_height <= i32::MAX,
        i32::MIN <= anchor_top + (if anchor_height - widget_height > 0 {
            anchor_height - widget_height
        } else {
            0
        }) / 2 <= i32::MAX,
    ensures
        y == anchor_top + (if anchor_height - widget_height > 0 {
            anchor_height - widget_height
        } else {
            0
        }) / 2,
{
    let diff = anchor_height - widget_height;
    anchor_top + (if diff > 0 {
        diff
    } else {
        0
    }) / 2
}

/// Taskbar height, at 96 DPI, up to which the taskbar counts as small.
pub const SMALL_TASKBAR_THRESHOLD: i32 = 34;

/// Widget height, at 96 DPI, on a small taskbar.
pub const SMALL_WIDGET_HEIGHT: i32 = 28;

/// Whether a taskbar of this height is small at `dpi`.
pub fn is_small_taskbar_height_at_dpi(taskbar_height: i32, dpi: u32) -> (b: bool)
    ensures
        b == (taskbar_height <= dpi_scaled(34, dpi as int)),
{
    taskbar_height <= scale_px(SMALL_TASKBAR_THRESHOLD, dpi)
}

/// Height of the widget: the small height on a small taskbar, else the
/// layout's, scaled to `dpi`.
pub fn widget_height(small_taskbar_mode: bool, preset: AppearancePreset, dpi: u32) -> (h: i32)
    ensures
        h == if small_taskbar_mode {
            dpi_scaled(28, dpi as int)
        } else {
            dpi_scaled(preset_metrics(preset).widget_height as int, dpi as int)
        },
{
    if small_taskbar_mode {
        scale_px(SMALL_WIDGET_HEIGHT, dpi)
    } else {
        scale_px(preset.metrics().widget_height, dpi)
    }
}

/// The tooltip of the service's tray icon: the service name, then the shown
/// windows' texts separated by ` | `.
pub open spec fn service_tooltip_text(
    service: Seq<char>,
    session_text: Seq<char>,
    weekly_text: Seq<char>,
    show_session_window: bool,
    show_weekly_window: bool,
) -> Seq<char> {
    let session = "5H "@ + session_text;
    let weekly = "7D "@ + weekly_text;
    service + ": "@ + if show_session_window && show_weekly_window {
        session + " | "@ + weekly
    } else if show_session_window {
        session
    } else if show_weekly_window {
        weekly
    } else {
        seq![]
    }
}

/// Tooltip of the service's tray icon.
pub fn service_tooltip(
    service: &str,
    session_text: &str,
    weekly_text: &str,
    show_session_window: bool,
    show_weekly_window: bool,
) -> (t: String)
    ensures
        t@ == service_tooltip_text(
            service@,
            session_text@,
            weekly_text@,
            show_session_window,
            show_weekly_window,
        ),
{
    let mut t = to_string(service);
    push_str(&mut t, ": ");
    if show_session_window {
        push_str(&mut t, "5H ");
        push_str(&mut t, session_text);
    }
    if show_session_window && show_weekly_window {
        push_str(&mut t, " | ");
    }
    if show_weekly_window {
        push_str(&mut t, "7D ");
        push_str(&mut t, weekly_text);
    }
    proof {
        let ghost expected = service_tooltip_text(
            service@,
            session_text@,
            weekly_text@,
            show_session_window,
            show_weekly_window,
        );
        assert(t@ =~= expected);
    }
    t
}

/// Whether the startup entry should be written under the current name: only
/// when the legacy entry exists and the current one does not.
pub fn should_write_migrated_startup(legacy_exists: bool, current_exists: bool) -> (b: bool)
    ensures
        b == (legacy_exists && !current_exists),
{
    legacy_exists && !current_exists
}

/// Why a usage poll failed.
#[derive(Clone, Copy, Debug, PartialEq, Eq, Structural)]
pub enum PollError {
    AuthRequired,
    NoCredentials,
    TokenExpired,
    NetworkUnavailable,
    RateLimited,
    ServerError,
    RequestFailed,
}

/// The short label the widget shows for a poll error.
pub open spec fn poll_error_label_text(error: PollError, zh: bool) -> Seq<char> {
    match error {
        PollError::AuthRequired | PollError::NoCredentials | PollError::TokenExpired => "!"@,
        PollError::NetworkUnavailable => if zh {
            "网络"@
        } else {
            "NET"@
        },
        PollError::RateLimited => if zh {
            "限流"@
        } else {
            "429"@
        },
        PollError::ServerError => if zh {
            "服务"@
        } else {
            "5XX"@
        },
        PollError::RequestFailed => if zh {
            "错误"@
        } else {
            "ERR"@
        },
    }
}

/// Short label of a poll error: `!` for credential problems, else a word in
/// Simplified Chinese or a code.
pub fn poll_error_display_label(error: PollError, language: LanguageId) -> (s: &'static str)
    ensures
        s@ == poll_error_label_text(error, language == LanguageId::SimplifiedChinese),
{
    let zh = language == LanguageId::SimplifiedChinese;
    match error {
        PollError::AuthRequired | PollError::NoCredentials | PollError::TokenExpired => "!",
        PollError::NetworkUnavailable => if zh {
            "网络"
        } else {
            "NET"
        },
        PollError::RateLimited => if zh {
            "限流"
        } else {
            "429"
        },
        PollError::ServerError => if zh {
            "服务"
        } else {
            "5XX"
        },
        PollError::RequestFailed => if zh {
            "错误"
        } else {
            "ERR"
        },
    }
}

/// The menu entry that opens the releases page.
pub open spec fn releases_label_text(language: LanguageId) -> Seq<char> {
    match language {
        LanguageId::English => "Open GitHub Releases"@,
        LanguageId::Dutch => "GitHub Releases openen"@,
        LanguageId::Spanish => "Abrir GitHub Releases"@,
        LanguageId::French => "Ouvrir GitHub Releases"@,
        LanguageId::German => "GitHub Releases öffnen"@,
        LanguageId::Japanese => "GitHub Releases を開く"@,
        LanguageId::Korean => "GitHub Releases 열기"@,
        LanguageId::SimplifiedChinese => "前往 GitHub Releases"@,
        LanguageId::TraditionalChinese => "前往 GitHub Releases"@,
        LanguageId::Russian => "Открыть GitHub Releases"@,
        LanguageId::PortugueseBrazil => "Abrir GitHub Releases"@,
    }
}

/// The menu entry that opens the releases page, in `language`.
pub fn github_releases_menu_label(language: LanguageId) -> (s: &'static str)
    ensures
        s@ == releases_label_text(language),
{
    match language {
        LanguageId::English => "Open GitHub Releases",
        LanguageId::Dutch => "GitHub Releases openen",
        LanguageId::Spanish => "Abrir GitHub Releases",
        LanguageId::French => "Ouvrir GitHub Releases",
        LanguageId::German => "GitHub Releases öffnen",
        LanguageId::Japanese => "GitHub Releases を開く",
        LanguageId::Korean => "GitHub Releases 열기",
        LanguageId::SimplifiedChinese => "前往 GitHub Releases",
        LanguageId::TraditionalChinese => "前往 GitHub Releases",
        LanguageId::Russian => "Открыть GitHub Releases",
        LanguageId::PortugueseBrazil => "Abrir GitHub Releases",
    }
}

/// The text before and after the version in the manual-update message.
pub open spec fn manual_update_parts(language: LanguageId) -> (Seq<char>, Seq<char>) {
    match language {
        LanguageId::English => ("Version v"@, " is available, but the program or release asset name has changed. Automatic update is unavailable. Open GitHub Releases and update manually."@),
        LanguageId::Dutch => ("Versie v"@, " is beschikbaar, maar de programma- of releasebestandsnaam is gewijzigd. Automatisch bijwerken is niet mogelijk. Open GitHub Releases en werk handmatig bij."@),
        LanguageId::Spanish => ("La versión v"@, " está disponible, pero el nombre del programa o de los archivos de la versión ha cambiado. La actualización automática no está disponible. Abre GitHub Releases y actualiza manualmente."@),
        LanguageId::French => ("La version v"@, " est disponible, mais le nom du programme ou des fichiers de publication a changé. La mise à jour automatique est indisponible. Ouvrez GitHub Releases et mettez à jour manuellement."@),
        LanguageId::German => ("Version v"@, " ist verfügbar, aber der Programmname oder der Name der Release-Datei hat sich geändert. Die automatische Aktualisierung ist nicht möglich. Öffnen Sie GitHub Releases und aktualisieren Sie manuell."@),
        LanguageId::Japanese => ("v"@, " を利用できますが、プログラム名またはリリースファイル名が変更されています。自動更新できません。GitHub Releases を開き、手動で更新してください。"@),
        LanguageId::Korean => ("v"@, " 버전을 사용할 수 있지만 프로그램 이름 또는 릴리스 파일 이름이 변경되었습니다. 자동 업데이트를 사용할 수 없습니다. GitHub Releases를 열어 수동으로 업데이트하세요."@),
        LanguageId::SimplifiedChinese => ("检测到 v"@, "，但程序名称或发布文件名称已发生变化，无法自动升级。请前往 GitHub Releases 手动更新。"@),
        LanguageId::TraditionalChinese => ("偵測到 v"@, "，但程式名稱或發佈檔案名稱已變更，無法自動升級。請前往 GitHub Releases 手動更新。"@),
        LanguageId::Russian => ("Доступна версия v"@, ", но название программы или файла релиза изменилось. Автоматическое обновление недоступно. Откройте GitHub Releases и обновитесь вручную."@),
        LanguageId::PortugueseBrazil => ("A versão v"@, " está disponível, mas o nome do programa ou do arquivo da versão mudou. A atualização automática não está disponível. Abra o GitHub Releases e atualize manualmente."@),
    }
}

/// The message telling that `version` must be installed by hand.
pub fn manual_update_required_message(language: LanguageId, version: &str) -> (m: String)
    ensures
        m@ == manual_update_parts(language).0 + version@ + manual_update_parts(language).1,
{
    let (before, after): (&str, &str) = match language {
        LanguageId::English => ("Version v", " is available, but the program or release asset name has changed. Automatic update is unavailable. Open GitHub Releases and update manually."),
        LanguageId::Dutch => ("Versie v", " is beschikbaar, maar de programma- of releasebestandsnaam is gewijzigd. Automatisch bijwerken is niet mogelijk. Open GitHub Releases en werk handmatig bij."),
        LanguageId::Spanish => ("La versión v", " está disponible, pero el nombre del programa o de los archivos de la versión ha cambiado. La actualización automática no está disponible. Abre GitHub Releases y actualiza manualmente."),
        LanguageId::French => ("La version v", " est disponible, mais le nom du programme ou des fichiers de publication a changé. La mise à jour automatique est indisponible. Ouvrez GitHub Releases et mettez à jour manuellement."),
        LanguageId::German => ("Version v", " ist verfügbar, aber der Programmname oder der Name der Release-Datei hat sich geändert. Die automatische Aktualisierung ist nicht möglich. Öffnen Sie GitHub Releases und aktualisieren Sie manuell."),
        LanguageId::Japanese => ("v", " を利用できますが、プログラム名またはリリースファイル名が変更されています。自動更新できません。GitHub Releases を開き、手動で更新してください。"),
        LanguageId::Korean => ("v", " 버전을 사용할 수 있지만 프로그램 이름 또는 릴리스 파일 이름이 변경되었습니다. 자동 업데이트를 사용할 수 없습니다. GitHub Releases를 열어 수동으로 업데이트하세요."),
        LanguageId::SimplifiedChinese => ("检测到 v", "，但程序名称或发布文件名称已发生变化，无法自动升级。请前往 GitHub Releases 手动更新。"),
        LanguageId::TraditionalChinese => ("偵測到 v", "，但程式名稱或發佈檔案名稱已變更，無法自動升級。請前往 GitHub Releases 手動更新。"),
        LanguageId::Russian => ("Доступна версия v", ", но название программы или файла релиза изменилось. Автоматическое обновление недоступно. Откройте GitHub Releases и обновитесь вручную."),
        LanguageId::PortugueseBrazil => ("A versão v", " está disponível, mas o nome do programa ou do arquivo da versão mudou. A atualização automática não está disponível. Abra o GitHub Releases e atualize manualmente."),
    };
    let mut m = to_string(before);
    push_str(&mut m, version);
    push_str(&mut m, after);
    m
}


/// Width of one progress segment at 96 DPI.
pub const SEGMENT_W: i32 = 10;

/// Height of one progress segment at 96 DPI.
pub const SEGMENT_H: i32 = 13;

/// Gap between progress segments at 96 DPI.
pub const SEGMENT_GAP: i32 = 1;

/// Width of the drag handle's hit area at 96 DPI.
pub const DRAG_HANDLE_HIT_W: i32 = 12;

/// Height of the drag handle's hit area at 96 DPI.
pub const DRAG_HANDLE_HIT_H: i32 = 24;

/// Width of the panel border in pixels.
pub const PANEL_BORDER_WIDTH_PX: i32 = 1;

/// The largest DPI the layout helpers take (a thousand times 96), keeping
/// their 32-bit arithmetic exact.
pub const MAX_LAYOUT_DPI: u32 = 96000;

proof fn lemma_dpi_scaled_small(px: int, dpi: int)
    requires
        0 <= px <= 1000,
        0 <= dpi <= 96000,
    ensures
        0 <= dpi_scaled(px, dpi) <= 1_000_001,
        dpi_scaled(px, dpi) == (px * dpi + 48) / 96,
{
    assert(0 <= px * dpi <= 1000 * 96000) by (nonlinear_arith)
        requires
            0 <= px <= 1000,
            0 <= dpi <= 96000,
    ;
}

fn sc(px: i32, dpi: u32) -> (v: i32)
    requires
        0 <= px <= 1000,
        dpi <= MAX_LAYOUT_DPI,
    ensures
        v == dpi_scaled(px as int, dpi as int),
        0 <= v <= 1_000_001,
{
    proof {
        lemma_dpi_scaled_small(px as int, dpi as int);
    }
    scale_px(px, dpi)
}

/// Number of progress segments in a row of the layout.
pub fn row_bar_segment_count(preset: AppearancePreset) -> (n: i32)
    ensures
        n == match preset {
            AppearancePreset::Compact => 8i32,
            AppearancePreset::Minimal => 6i32,
        },
{
    match preset {
        AppearancePreset::Compact => 8,
        AppearancePreset::Minimal => 6,
    }
}

/// Label and reset-time widths of the layout (at 96 DPI); the language does
/// not change them.
pub fn usage_layout_widths(language: LanguageId, preset: AppearancePreset) -> (w: (i32, i32))
    ensures
        w == (preset_metrics(preset).label_width, preset_metrics(preset).reset_width),
{
    let metrics = preset.metrics();
    (metrics.label_width, metrics.reset_width)
}

/// Total width of the widget in the layout at `dpi`.
pub open spec fn total_widget_width_spec(preset: AppearancePreset, dpi: int) -> int {
    let m = preset_metrics(preset);
    match preset {
        AppearancePreset::Minimal => dpi_scaled(12, dpi) + dpi_scaled(m.outer_padding as int, dpi)
            + dpi_scaled(m.percent_width as int, dpi) + dpi_scaled(m.outer_padding as int, dpi),
        AppearancePreset::Compact => {
            let progress = (dpi_scaled(10, dpi) + dpi_scaled(1, dpi)) * 8 - dpi_scaled(1, dpi);
            let usage = progress + dpi_scaled(m.bar_percent_gap as int, dpi) + dpi_scaled(
                m.percent_width as int,
                dpi,
            ) + if m.reset_width > 0 {
                dpi_scaled(m.percent_reset_gap as int, dpi) + dpi_scaled(m.reset_width as int, dpi)
            } else {
                0
            };
            dpi_scaled(12, dpi) + dpi_scaled(m.outer_padding as int, dpi) + dpi_scaled(
                m.label_width as int,
                dpi,
            ) + dpi_scaled(m.label_bar_gap as int, dpi) + usage + dpi_scaled(
                m.outer_padding as int,
                dpi,
            )
        },
    }
}

/// Law: the widget is exactly as wide as the elements its layout draws, each
/// scaled to the DPI: the drag handle, the padding on both sides and the
/// percentage; in the compact layout also the label and the gap after it,
/// the eight progress segments with the seven gaps between them, the gap
/// before the percentage and, as that layout shows reset times, the gap
/// before the reset time and the reset time's own width. So the compact
/// widget is never narrower than the minimal one.
pub proof fn lemma_widget_width_is_its_elements(dpi: int)
    requires
        0 <= dpi <= MAX_LAYOUT_DPI,
    ensures
        !preset_metrics(AppearancePreset::Compact).hide_reset_time,
        preset_metrics(AppearancePreset::Compact).reset_width > 0,
        total_widget_width_spec(AppearancePreset::Compact, dpi) == dpi_scaled(DRAG_HANDLE_HIT_W as int, dpi)
            + 2 * dpi_scaled(preset_metrics(AppearancePreset::Compact).outer_padding as int, dpi)
            + dpi_scaled(preset_metrics(AppearancePreset::Compact).label_width as int, dpi)
            + dpi_scaled(preset_metrics(AppearancePreset::Compact).label_bar_gap as int, dpi)
            + 8 * dpi_scaled(SEGMENT_W as int, dpi) + 7 * dpi_scaled(SEGMENT_GAP as int, dpi)
            + dpi_scaled(preset_metrics(AppearancePreset::Compact).bar_percent_gap as int, dpi)
            + dpi_scaled(preset_metrics(AppearancePreset::Compact).percent_width as int, dpi)
            + dpi_scaled(preset_metrics(AppearancePreset::Compact).percent_reset_gap as int, dpi)
            + dpi_scaled(preset_metrics(AppearancePreset::Compact).reset_width as int, dpi),
        total_widget_width_spec(AppearancePreset::Minimal, dpi) == dpi_scaled(DRAG_HANDLE_HIT_W as int, dpi)
            + 2 * dpi_scaled(preset_metrics(AppearancePreset::Minimal).outer_padding as int, dpi)
            + dpi_scaled(preset_metrics(AppearancePreset::Minimal).percent_width as int, dpi),
        total_widget_width_spec(AppearancePreset::Minimal, dpi) <= total_widget_width_spec(
            AppearancePreset::Compact,
            dpi,
        ),
{
    lemma_dpi_scaled_small(6, dpi);
    lemma_dpi_scaled_small(18, dpi);
    lemma_dpi_scaled_small(10, dpi);
    lemma_dpi_scaled_small(1, dpi);
    lemma_dpi_scaled_small(4, dpi);
    lemma_dpi_scaled_small(3, dpi);
    lemma_dpi_scaled_small(34, dpi);
}

/// Total width of the widget in `preset` at `dpi`: drag handle, paddings,
/// label, progress segments, percentage and, where shown, the reset time.
pub fn total_widget_width_for_preset(language: LanguageId, preset: AppearancePreset, dpi: u32) -> (w: i32)
    requires
        dpi <= MAX_LAYOUT_DPI,
    ensures
        w == total_widget_width_spec(preset, dpi as int),
{
    let metrics = preset.metrics();
    if preset == AppearancePreset::Minimal {
        return sc(DRAG_HANDLE_HIT_W, dpi) + sc(metrics.outer_padding, dpi) + sc(
            metrics.percent_width,
            dpi,
        ) + sc(metrics.outer_padding, dpi);
    }
    let bar_segments = row_bar_segment_count(preset);
    let (label_width, reset_width) = usage_layout_widths(language, preset);
    let progress_width = (sc(SEGMENT_W, dpi) + sc(SEGMENT_GAP, dpi)) * bar_segments - sc(
        SEGMENT_GAP,
        dpi,
    );
    let usage_width = progress_width + sc(metrics.bar_percent_gap, dpi) + sc(
        metrics.percent_width,
        dpi,
    ) + if reset_width > 0 {
        sc(metrics.percent_reset_gap, dpi) + sc(reset_width, dpi)
    } else {
        0
    };
    sc(DRAG_HANDLE_HIT_W, dpi) + sc(metrics.outer_padding, dpi) + sc(label_width, dpi) + sc(
        metrics.label_bar_gap,
        dpi,
    ) + usage_width + sc(metrics.outer_padding, dpi)
}

/// Whether a client point lies on the drag handle: the left strip of the
/// widget, a hit area of the handle's height centred vertically.
pub open spec fn drag_handle_hit(client_x: int, client_y: int, widget_height: int, dpi: int) -> bool {
    let hit_h = dpi_scaled(24, dpi);
    let hit_top = (if widget_height - hit_h > 0 {
        widget_height - hit_h
    } else {
        0
    }) / 2;
    let bottom = if hit_top + hit_h < widget_height {
        hit_top + hit_h
    } else {
        widget_height
    };
    0 <= client_x < dpi_scaled(12, dpi) && hit_top <= client_y < bottom
}

/// Whether the client point `(client_x, client_y)` lies on the drag handle of
/// a widget `widget_height` pixels tall.
pub fn is_drag_handle_point(client_x: i32, client_y: i32, widget_height: i32, dpi: u32) -> (b: bool)
    requires
        widget_height >= 0,
        dpi <= MAX_LAYOUT_DPI,
    ensures
        b == drag_handle_hit(client_x as int, client_y as int, widget_height as int, dpi as int),
{
    let hit_h = sc(DRAG_HANDLE_HIT_H, dpi);
    let diff = widget_height - hit_h;
    let hit_top = (if diff > 0 {
        diff
    } else {
        0
    }) / 2;
    let bottom = if hit_top + hit_h < widget_height {
        hit_top + hit_h
    } else {
        widget_height
    };
    client_x >= 0 && client_x < sc(DRAG_HANDLE_HIT_W, dpi) && client_y >= hit_top && client_y
        < bottom
}

/// `offset` clamped to the room between the taskbar's left edge and the tray.
pub open spec fn clamped_offset(tray_left: int, taskbar_left: int, widget_width: int, offset: int) -> int {
    let room = tray_left - taskbar_left - widget_width;
    let max_offset = if room > 0 {
        room
    } else {
        0
    };
    if offset < 0 {
        0
    } else if offset > max_offset {
        max_offset
    } else {
        offset
    }
}

/// The widget's offset from the tray, kept between zero and the room left of
/// the tray.
pub fn clamp_offset_for_taskbar(tray_left: i32, taskbar_left: i32, widget_width: i32, offset: i32) -> (o: i32)
    requires
        i32::MIN <= tray_left - taskbar_left <= i32::MAX,
        i32::MIN <= tray_left - taskbar_left - widget_width <= i32::MAX,
    ensures
        o == clamped_offset(tray_left as int, taskbar_left as int, widget_width as int, offset as int),
        0 <= o,
{
    let room = tray_left - taskbar_left - widget_width;
    let max_offset = if room > 0 {
        room
    } else {
        0
    };
    if offset < 0 {
        0
    } else if offset > max_offset {
        max_offset
    } else {
        offset
    }
}

/// The widget's left edge while dragging: the cursor's distance from the
/// taskbar's left edge, less the grab point.
pub fn drag_left_from_cursor(taskbar_left: i32, cursor_x: i32, anchor_px: i32) -> (l: i32)
    requires
        i32::MIN <= cursor_x - taskbar_left - anchor_px <= i32::MAX,
        i32::MIN <= cursor_x - taskbar_left <= i32::MAX,
    ensures
        l == cursor_x - taskbar_left - anchor_px,
{
    cursor_x - taskbar_left - anchor_px
}

/// The offset from the tray that puts the widget's left edge at `drag_left`,
/// clamped to the room on the taskbar.
pub fn offset_for_drag_left(tray_left: i32, taskbar_left: i32, widget_width: i32, drag_left: i32) -> (o: i32)
    requires
        i32::MIN <= tray_left - taskbar_left <= i32::MAX,
        i32::MIN <= tray_left - taskbar_left - widget_width <= i32::MAX,
        i32::MIN <= tray_left - taskbar_left - widget_width - drag_left <= i32::MAX,
    ensures
        o == clamped_offset(
            tray_left as int,
            taskbar_left as int,
            widget_width as int,
            tray_left - taskbar_left - widget_width - drag_left,
        ),
{
    let offset = tray_left - taskbar_left - widget_width - drag_left;
    clamp_offset_for_taskbar(tray_left, taskbar_left, widget_width, offset)
}

/// The grab point of a drag, given at 96 DPI, in pixels at `dpi` (at least 1).
pub fn drag_anchor_px_for_dpi(logical_x: i32, dpi: u32) -> (px: i32)
    requires
        -0x10_0000_0000_0000 <= logical_x * (if dpi < 1 {
            1
        } else {
            dpi
        }) <= 0x10_0000_0000_0000,
    ensures
        px == dpi_scaled(logical_x as int, if dpi < 1 {
            1
        } else {
            dpi as int
        }),
{
    let dpi = if dpi < 1 {
        1
    } else {
        dpi
    };
    scale_px(logical_x, dpi)
}

/// Which percentage the pointer hovers in the minimal layout.
#[derive(Clone, Copy, Debug, PartialEq, Eq, Structural)]
pub enum MinimalHoverTarget {
    Session,
    Weekly,
}

/// The hover rectangle of a percentage whose row starts at `top`.
pub open spec fn percent_hit_rect(dpi: int, top: int) -> Rect {
    let content_x = dpi_scaled(12, dpi) + dpi_scaled(6, dpi);
    let width = dpi_scaled(36, dpi);
    Rect {
        left: (content_x - dpi_scaled(2, dpi)) as i32,
        top: (top - dpi_scaled(2, dpi)) as i32,
        right: (content_x + width + dpi_scaled(2, dpi)) as i32,
        bottom: (top + dpi_scaled(13, dpi) + dpi_scaled(2, dpi)) as i32,
    }
}

/// Top of each percentage row in the minimal layout: the first of two rows,
/// the second of two rows, and a single centred row.
pub open spec fn minimal_row_tops(height: int, dpi: int) -> (int, int, int) {
    let row2 = height - dpi_scaled(4, dpi) - dpi_scaled(13, dpi);
    let row1 = row2 - dpi_scaled(7, dpi) - dpi_scaled(13, dpi);
    let free = height - dpi_scaled(13, dpi);
    // Halved as 32-bit division does, toward zero.
    let single = if free >= 0 {
        free / 2
    } else {
        -((-free) / 2)
    };
    (row1, row2, single)
}

/// Which percentage of the minimal layout the point `(x, y)` hovers, and its
/// rectangle. On a small taskbar one window is shown, else the chosen ones.
pub open spec fn minimal_hit(
    preset: AppearancePreset,
    small_taskbar_mode: bool,
    small_show_weekly: bool,
    show_session: bool,
    show_weekly: bool,
    height: int,
    dpi: int,
    x: int,
    y: int,
) -> Option<(MinimalHoverTarget, Rect)> {
    let session = if small_taskbar_mode {
        !small_show_weekly
    } else {
        show_session
    };
    let weekly = if small_taskbar_mode {
        small_show_weekly
    } else {
        show_weekly
    };
    let (row1, row2, single) = minimal_row_tops(height, dpi);
    let session_rect = percent_hit_rect(dpi, if weekly { row1 } else { single });
    let weekly_rect = percent_hit_rect(dpi, if session { row2 } else { single });
    if preset != AppearancePreset::Minimal {
        None
    } else if session && contains_point(session_rect, x, y) {
        Some((MinimalHoverTarget::Session, session_rect))
    } else if weekly && contains_point(weekly_rect, x, y) {
        Some((MinimalHoverTarget::Weekly, weekly_rect))
    } else {
        None
    }
}

/// The percentage of the minimal layout under the point `(x, y)` of a widget
/// `height` pixels tall, with its hover rectangle.
pub fn minimal_percent_hit(
    preset: AppearancePreset,
    small_taskbar_mode: bool,
    small_show_weekly: bool,
    show_session: bool,
    show_weekly: bool,
    height: i32,
    dpi: u32,
    x: i32,
    y: i32,
) -> (hit: Option<(MinimalHoverTarget, Rect)>)
    requires
        0 <= height <= 1_000_000,
        dpi <= MAX_LAYOUT_DPI,
    ensures
        hit == minimal_hit(
            preset,
            small_taskbar_mode,
            small_show_weekly,
            show_session,
            show_weekly,
            height as int,
            dpi as int,
            x as int,
            y as int,
        ),
{
    if preset != AppearancePreset::Minimal {
        return None;
    }
    let effective_show_session = if small_taskbar_mode {
        !small_show_weekly
    } else {
        show_session
    };
    let effective_show_weekly = if small_taskbar_mode {
        small_show_weekly
    } else {
        show_weekly
    };
    let metrics = preset.metrics();
    let content_x = sc(DRAG_HANDLE_HIT_W, dpi) + sc(metrics.outer_padding, dpi);
    let row2_y = height - sc(4, dpi) - sc(SEGMENT_H, dpi);
    let row1_y = row2_y - sc(metrics.row_gap, dpi) - sc(SEGMENT_H, dpi);
    let single_row_y = (height - sc(SEGMENT_H, dpi)) / 2;
    let width = sc(metrics.percent_width, dpi);
    let pad = sc(2, dpi);
    let seg_h = sc(SEGMENT_H, dpi);
    if effective_show_session {
        let top = if effective_show_weekly {
            row1_y
        } else {
            single_row_y
        };
        let r = Rect {
            left: content_x - pad,
            top: top - pad,
            right: content_x + width + pad,
            bottom: top + seg_h + pad,
        };
        if crate::style_editor::pt_in_rect(r, x, y) {
            return Some((MinimalHoverTarget::Session, r));
        }
    }
    if effective_show_weekly {
        let top = if effective_show_session {
            row2_y
        } else {
            single_row_y
        };
        let r = Rect {
            left: content_x - pad,
            top: top - pad,
            right: content_x + width + pad,
            bottom: top + seg_h + pad,
        };
        if crate::style_editor::pt_in_rect(r, x, y) {
            return Some((MinimalHoverTarget::Weekly, r));
        }
    }
    None
}

/// The hover text of a percentage in the minimal layout: the window's label,
/// then its reset hint or `--`.
pub open spec fn minimal_hover_text_of(label: Seq<char>, reset: Option<LocalTime>, window: UsageWindowKind) -> Seq<char> {
    label + " · "@ + match reset {
        Some(t) => reset_hint_text(t, window),
        None => "--"@,
    }
}

/// The hover text of a percentage in the minimal layout, from the window's
/// label and reset time.
pub fn minimal_hover_text(
    label: &str,
    language: LanguageId,
    remaining_percent: u64,
    reset: Option<LocalTime>,
    window: UsageWindowKind,
) -> (text: String)
    ensures
        text@ == minimal_hover_text_of(label@, reset, window),
{
    let value = taskbar_value_text(
        AppearancePreset::Compact,
        language,
        remaining_percent,
        reset,
        window,
    );
    let mut text = to_string(label);
    push_str(&mut text, " · ");
    match value.secondary {
        Some(hint) => push_str(&mut text, hint.as_str()),
        None => push_str(&mut text, "--"),
    }
    text
}

/// Text quality of the widget in `style`: decided by the panel background's
/// opacity and whether composition blur is on.
pub fn widget_text_quality(style: &ThemeStyle, composition_blur_active: bool) -> (q: u32)
    requires
        !hex_cut_panics(color_text(style@, StyleColorTarget::PanelBackground)),
    ensures
        q == if color_of_text(color_text(style@, StyleColorTarget::PanelBackground)).a == 255
            && !composition_blur_active {
            CLEARTYPE_QUALITY_VALUE
        } else {
            NONANTIALIASED_QUALITY_VALUE
        },
{
    let alpha = style.color(StyleColorTarget::PanelBackground).a;
    text_quality_for_layered_surface(alpha, composition_blur_active)
}

/// Whether a preview frame is due at `now_ms`, and the time of the last frame
/// afterwards: a forced frame, a first frame, or one at least `interval_ms`
/// after the last is due and becomes the last.
pub fn preview_frame_due(last_ms: Option<u64>, now_ms: u64, interval_ms: u64, force: bool) -> (r: (
    bool,
    Option<u64>,
))
    ensures
        r.0 == (force || match last_ms {
            Some(previous) => (if now_ms >= previous {
                now_ms - previous
            } else {
                0
            }) >= interval_ms,
            None => true,
        }),
        r.1 == if r.0 {
            Some(now_ms)
        } else {
            last_ms
        },
{
    let due = force || match last_ms {
        Some(previous) => (if now_ms >= previous {
            now_ms - previous
        } else {
            0
        }) >= interval_ms,
        None => true,
    };
    if due {
        (true, Some(now_ms))
    } else {
        (false, last_ms)
    }
}

/// Whether tray-driven repositioning is still suppressed at `now_ms`, and the
/// deadline afterwards: a passed deadline is forgotten.
pub fn tray_reposition_is_suppressed(until_ms: Option<u64>, now_ms: u64) -> (r: (bool, Option<u64>))
    ensures
        r == match until_ms {
            Some(deadline) => if now_ms < deadline {
                (true, until_ms)
            } else {
                (false, None::<u64>)
            },
            None => (false, None::<u64>),
        },
{
    match until_ms {
        Some(deadline) => if now_ms < deadline {
            (true, until_ms)
        } else {
            (false, None)
        },
        None => (false, None),
    }
}

/// The name of a colour setting in the style editor.
pub open spec fn style_color_target_label_text(target: StyleColorTarget, zh: bool) -> Seq<char> {
    match target {
        StyleColorTarget::PanelBackground => if zh { "背景颜色"@ } else { "Background color"@ },
        StyleColorTarget::PanelBorder => if zh { "边框颜色"@ } else { "Border color"@ },
        StyleColorTarget::QuotaType => if zh { "额度类型"@ } else { "Quota type"@ },
        StyleColorTarget::Remaining => if zh { "剩余额度"@ } else { "Remaining quota"@ },
        StyleColorTarget::ResetTime => if zh { "重置时间"@ } else { "Reset time"@ },
        StyleColorTarget::Error => if zh { "异常状态"@ } else { "Error state"@ },
        StyleColorTarget::ProgressHigh => if zh { "充足额度颜色"@ } else { "High quota color"@ },
        StyleColorTarget::ProgressMedium => if zh { "中等额度颜色"@ } else { "Medium quota color"@ },
        StyleColorTarget::ProgressLow => if zh { "低额度颜色"@ } else { "Low quota color"@ },
        StyleColorTarget::ProgressConsumed => if zh { "已消耗部分颜色"@ } else { "Consumed color"@ },
        StyleColorTarget::DragHandle => if zh { "拖拽点颜色"@ } else { "Drag handle color"@ },
    }
}

/// The name of a colour setting in the style editor, in Chinese or English.
pub fn style_color_target_label(target: StyleColorTarget, language: LanguageId) -> (s: &'static str)
    ensures
        s@ == style_color_target_label_text(target, language == LanguageId::SimplifiedChinese),
{
    let zh = language == LanguageId::SimplifiedChinese;
    match target {
        StyleColorTarget::PanelBackground => if zh { "背景颜色" } else { "Background color" },
        StyleColorTarget::PanelBorder => if zh { "边框颜色" } else { "Border color" },
        StyleColorTarget::QuotaType => if zh { "额度类型" } else { "Quota type" },
        StyleColorTarget::Remaining => if zh { "剩余额度" } else { "Remaining quota" },
        StyleColorTarget::ResetTime => if zh { "重置时间" } else { "Reset time" },
        StyleColorTarget::Error => if zh { "异常状态" } else { "Error state" },
        StyleColorTarget::ProgressHigh => if zh { "充足额度颜色" } else { "High quota color" },
        StyleColorTarget::ProgressMedium => if zh { "中等额度颜色" } else { "Medium quota color" },
        StyleColorTarget::ProgressLow => if zh { "低额度颜色" } else { "Low quota color" },
        StyleColorTarget::ProgressConsumed => if zh { "已消耗部分颜色" } else { "Consumed color" },
        StyleColorTarget::DragHandle => if zh { "拖拽点颜色" } else { "Drag handle color" },
    }
}

/// What a pointer move over the minimal layout does to its tooltip.
#[derive(Clone, Copy, Debug, PartialEq, Eq, Structural)]
pub enum HoverAction {
    /// The hovered percentage is unchanged: nothing to do.
    Keep,
    /// A percentage is newly hovered: show its tooltip over its rectangle.
    Show(MinimalHoverTarget, Rect),
    /// The pointer left the percentages: hide the tooltip.
    Hide,
}

/// The hovered percentage after a pointer move, and what happens to the
/// tooltip: only a change of the hovered percentage shows or hides it.
pub fn minimal_hover_transition(
    current: Option<MinimalHoverTarget>,
    hit: Option<(MinimalHoverTarget, Rect)>,
) -> (r: (Option<MinimalHoverTarget>, HoverAction))
    ensures
        r.0 == match hit {
            Some((t, _)) => Some(t),
            None => None::<MinimalHoverTarget>,
        },
        r.1 == if r.0 == current {
            HoverAction::Keep
        } else {
            match hit {
                Some((t, rect)) => HoverAction::Show(t, rect),
                None => HoverAction::Hide,
            }
        },
{
    let target = match hit {
        Some((t, _)) => Some(t),
        None => None,
    };
    let same = match (current, target) {
        (Some(a), Some(b)) => a == b,
        (None, None) => true,
        _ => false,
    };
    if same {
        return (target, HoverAction::Keep);
    }
    match hit {
        Some((t, rect)) => (target, HoverAction::Show(t, rect)),
        None => (target, HoverAction::Hide),
    }
}

/// Where the minimal layout's tooltip goes: 112 by 28 pixels (at 96 DPI),
/// centred on `anchor_x`, 6 pixels above the widget when there is room above
/// it, else 6 pixels below.
pub open spec fn tooltip_place(owner: Rect, anchor_x: int, dpi: int) -> (int, int, int, int) {
    let width = dpi_scaled(112, dpi);
    let height = dpi_scaled(28, dpi);
    let gap = dpi_scaled(6, dpi);
    let y = if owner.top >= height + gap {
        owner.top - height - gap
    } else {
        owner.bottom + gap
    };
    (anchor_x - width / 2, y, width, height)
}

/// The tooltip's position and size for a widget at `owner` on screen, with
/// the hovered percentage's centre at `anchor_x`.
pub fn minimal_tooltip_rect(owner: Rect, anchor_x: i32, dpi: u32) -> (r: (i32, i32, i32, i32))
    requires
        dpi <= MAX_LAYOUT_DPI,
        -0x1000_0000 <= owner.top <= 0x1000_0000,
        -0x1000_0000 <= owner.bottom <= 0x1000_0000,
        -0x1000_0000 <= anchor_x <= 0x1000_0000,
    ensures
        (r.0 as int, r.1 as int, r.2 as int, r.3 as int) == tooltip_place(owner, anchor_x as int, dpi as int),
{
    let width = sc(112, dpi);
    let height = sc(28, dpi);
    let gap = sc(6, dpi);
    let y = if owner.top >= height + gap {
        owner.top - height - gap
    } else {
        owner.bottom + gap
    };
    (anchor_x - width / 2, y, width, height)
}

/// The horizontal centre of a hover rectangle (halved toward zero).
pub fn hover_anchor_x(hit: Rect) -> (x: i32)
    requires
        -0x3FFF_FFFF <= hit.left <= 0x3FFF_FFFF,
        -0x3FFF_FFFF <= hit.right <= 0x3FFF_FFFF,
    ensures
        x == (if hit.left + hit.right >= 0 {
            (hit.left + hit.right) / 2
        } else {
            -((-(hit.left + hit.right)) / 2)
        }),
{
    (hit.left + hit.right) / 2
}

} // verus!
