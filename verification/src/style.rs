use vstd::prelude::*;

use crate::color::{hex_cut_panics, hex_rgba_text, hex_text_cuts_char, parse_color, Color};

verus! {

/// Upper bound of the frosted-glass strength.
pub const FROSTED_STRENGTH_MAX: u8 = 100;

/// Strength value that marks a style saved before the strength field existed.
pub const LEGACY_FROSTED_STRENGTH_SENTINEL: u8 = 255;

/// The strength that a style file without the field reads as.
pub fn missing_frosted_strength() -> (v: u8)
    ensures
        v == LEGACY_FROSTED_STRENGTH_SENTINEL,
{
    LEGACY_FROSTED_STRENGTH_SENTINEL
}

/// Which theme the widget follows.
#[derive(Clone, Copy, Debug, PartialEq, Eq, Structural)]
pub enum ThemeMode {
    System,
    Dark,
    Light,
}

impl ThemeMode {
    /// `System`, the mode of a fresh installation.
    pub fn default_mode() -> (m: Self)
        ensures
            m == ThemeMode::System,
    {
        ThemeMode::System
    }
}

impl Default for ThemeMode {
    fn default() -> (m: Self)
        ensures
            m == ThemeMode::System,
    {
        ThemeMode::System
    }
}

/// Named colour sets offered for each theme.
#[derive(Clone, Copy, Debug, PartialEq, Eq, Structural)]
pub enum ThemePreset {
    Classic,
    Ocean,
    Forest,
}

impl ThemePreset {
    /// All presets, in display order.
    pub fn all() -> (v: [ThemePreset; 3])
        ensures
            v@ == seq![ThemePreset::Classic, ThemePreset::Ocean, ThemePreset::Forest],
    {
        [ThemePreset::Classic, ThemePreset::Ocean, ThemePreset::Forest]
    }

    /// The preset at `index` in display order.
    pub fn from_index(index: usize) -> (p: Option<Self>)
        ensures
            index == 0 ==> p == Some(ThemePreset::Classic),
            index == 1 ==> p == Some(ThemePreset::Ocean),
            index == 2 ==> p == Some(ThemePreset::Forest),
            index > 2 ==> p is None,
    {
        match index {
            0 => Some(Self::Classic),
            1 => Some(Self::Ocean),
            2 => Some(Self::Forest),
            _ => None,
        }
    }
}

/// A colour setting of a theme style.
#[derive(Clone, Copy, Debug, PartialEq, Eq, Structural)]
pub enum StyleColorTarget {
    PanelBackground,
    PanelBorder,
    QuotaType,
    Remaining,
    ResetTime,
    Error,
    ProgressHigh,
    ProgressMedium,
    ProgressLow,
    ProgressConsumed,
    DragHandle,
}

/// Colours and frosted strength of the widget for one theme; colours are
/// `#RRGGBBAA` text.
#[derive(Clone, Debug)]
pub struct ThemeStyle {
    pub panel_background: String,
    pub panel_border: String,
    /// Field of an earlier style format, read only to migrate it.
    pub panel_blur_radius: u8,
    /// Frosted-glass intensity: 0 is off, 1 to 100 increasingly frosted.
    pub panel_frosted_strength: u8,
    pub quota_type: String,
    pub remaining: String,
    pub reset_time: String,
    pub error: String,
    pub progress_high: String,
    pub progress_medium: String,
    pub progress_low: String,
    pub progress_consumed: String,
    pub drag_handle: String,
}

/// A theme style as plain values.
pub struct StyleView {
    pub panel_background: Seq<char>,
    pub panel_border: Seq<char>,
    pub panel_blur_radius: u8,
    pub panel_frosted_strength: u8,
    pub quota_type: Seq<char>,
    pub remaining: Seq<char>,
    pub reset_time: Seq<char>,
    pub error: Seq<char>,
    pub progress_high: Seq<char>,
    pub progress_medium: Seq<char>,
    pub progress_low: Seq<char>,
    pub progress_consumed: Seq<char>,
    pub drag_handle: Seq<char>,
}

impl View for ThemeStyle {
    type V = StyleView;

    open spec fn view(&self) -> StyleView {
        StyleView {
            panel_background: self.panel_background@,
            panel_border: self.panel_border@,
            panel_blur_radius: self.panel_blur_radius,
            panel_frosted_strength: self.panel_frosted_strength,
            quota_type: self.quota_type@,
            remaining: self.remaining@,
            reset_time: self.reset_time@,
            error: self.error@,
            progress_high: self.progress_high@,
            progress_medium: self.progress_medium@,
            progress_low: self.progress_low@,
            progress_consumed: self.progress_consumed@,
            drag_handle: self.drag_handle@,
        }
    }
}

/// Text of the colour setting `target`.
pub open spec fn color_text(s: StyleView, target: StyleColorTarget) -> Seq<char> {
    match target {
        StyleColorTarget::PanelBackground => s.panel_background,
        StyleColorTarget::PanelBorder => s.panel_border,
        StyleColorTarget::QuotaType => s.quota_type,
        StyleColorTarget::Remaining => s.remaining,
        StyleColorTarget::ResetTime => s.reset_time,
        StyleColorTarget::Error => s.error,
        StyleColorTarget::ProgressHigh => s.progress_high,
        StyleColorTarget::ProgressMedium => s.progress_medium,
        StyleColorTarget::ProgressLow => s.progress_low,
        StyleColorTarget::ProgressConsumed => s.progress_consumed,
        StyleColorTarget::DragHandle => s.drag_handle,
    }
}

/// `s` with the colour setting `target` set to `text`.
pub open spec fn with_color_text(s: StyleView, target: StyleColorTarget, text: Seq<char>) -> StyleView {
    match target {
        StyleColorTarget::PanelBackground => StyleView { panel_background: text, ..s },
        StyleColorTarget::PanelBorder => StyleView { panel_border: text, ..s },
        StyleColorTarget::QuotaType => StyleView { quota_type: text, ..s },
        StyleColorTarget::Remaining => StyleView { remaining: text, ..s },
        StyleColorTarget::ResetTime => StyleView { reset_time: text, ..s },
        StyleColorTarget::Error => StyleView { error: text, ..s },
        StyleColorTarget::ProgressHigh => StyleView { progress_high: text, ..s },
        StyleColorTarget::ProgressMedium => StyleView { progress_medium: text, ..s },
        StyleColorTarget::ProgressLow => StyleView { progress_low: text, ..s },
        StyleColorTarget::ProgressConsumed => StyleView { progress_consumed: text, ..s },
        StyleColorTarget::DragHandle => StyleView { drag_handle: text, ..s },
    }
}

/// Reading any colour setting of `s` cuts no character apart.
pub open spec fn colors_readable(s: StyleView) -> bool {
    forall|t: StyleColorTarget| !hex_cut_panics(#[trigger] color_text(s, t))
}

/// The colour a setting text stands for: the colour it denotes, or opaque
/// black.
pub open spec fn color_of_text(text: Seq<char>) -> Color {
    match parse_color(text) {
        Some(c) => c,
        None => Color { r: 0, g: 0, b: 0, a: 255 },
    }
}

/// A colour setting after normalisation: canonical `#RRGGBBAA` text of the
/// colour it denotes, or the fallback text when it denotes none.
pub open spec fn normalized_color_text(value: Seq<char>, fallback: Seq<char>) -> Seq<char> {
    match parse_color(value) {
        Some(c) => hex_rgba_text(c),
        None => fallback,
    }
}

/// Frosted strength after normalisation: the legacy marker becomes full or no
/// strength by the old blur setting; other values are capped at the maximum.
pub open spec fn normalized_strength(strength: u8, blur_radius: u8) -> u8 {
    if strength == LEGACY_FROSTED_STRENGTH_SENTINEL {
        if blur_radius > 0 {
            FROSTED_STRENGTH_MAX
        } else {
            0
        }
    } else if strength > FROSTED_STRENGTH_MAX {
        FROSTED_STRENGTH_MAX
    } else {
        strength
    }
}

/// `s` normalised against `fallback`.
pub open spec fn normalized_style(s: StyleView, fallback: StyleView) -> StyleView {
    StyleView {
        panel_background: normalized_color_text(s.panel_background, fallback.panel_background),
        panel_border: normalized_color_text(s.panel_border, fallback.panel_border),
        panel_blur_radius: 0,
        panel_frosted_strength: normalized_strength(s.panel_frosted_strength, s.panel_blur_radius),
        quota_type: normalized_color_text(s.quota_type, fallback.quota_type),
        remaining: normalized_color_text(s.remaining, fallback.remaining),
        reset_time: normalized_color_text(s.reset_time, fallback.reset_time),
        error: normalized_color_text(s.error, fallback.error),
        progress_high: normalized_color_text(s.progress_high, fallback.progress_high),
        progress_medium: normalized_color_text(s.progress_medium, fallback.progress_medium),
        progress_low: normalized_color_text(s.progress_low, fallback.progress_low),
        progress_consumed: normalized_color_text(s.progress_consumed, fallback.progress_consumed),
        drag_handle: normalized_color_text(s.drag_handle, fallback.drag_handle),
    }
}

/// A style with the given colour texts and no frosting.
pub open spec fn style_of(
    panel_background: &str,
    panel_border: &str,
    quota_type: &str,
    remaining: &str,
    reset_time: &str,
    error: &str,
    progress_high: &str,
    progress_medium: &str,
    progress_low: &str,
    progress_consumed: &str,
    drag_handle: &str,
) -> StyleView {
    StyleView {
        panel_background: panel_background@,
        panel_border: panel_border@,
        panel_blur_radius: 0,
        panel_frosted_strength: 0,
        quota_type: quota_type@,
        remaining: remaining@,
        reset_time: reset_time@,
        error: error@,
        progress_high: progress_high@,
        progress_medium: progress_medium@,
        progress_low: progress_low@,
        progress_consumed: progress_consumed@,
        drag_handle: drag_handle@,
    }
}

/// The colours of each preset in each theme.
pub open spec fn preset_style(is_dark: bool, preset: ThemePreset) -> StyleView {
    match (is_dark, preset) {
        (true, ThemePreset::Classic) => style_of(
            "#242A31FF", "#343B43FF", "#A0A0A0FF", "#FFFFFFFF", "#92979DFF", "#D95C5CFF",
            "#55A8F2FF", "#E6B84AFF", "#D95C5CFF", "#363A3FFF", "#69727CFF",
        ),
        (false, ThemePreset::Classic) => style_of(
            "#EEF1F4FF", "#D4D9DFFF", "#404040FF", "#202020FF", "#666666FF", "#D95C5CFF",
            "#55A8F2FF", "#E6B84AFF", "#D95C5CFF", "#AAAAAAFF", "#8A929AFF",
        ),
        (true, ThemePreset::Ocean) => style_of(
            "#0F1B24FF", "#294252FF", "#8CA7B8FF", "#EAF7FFFF", "#7192A8FF", "#FF7474FF",
            "#3FB7E9FF", "#E3B65BFF", "#F06A6AFF", "#263B49FF", "#648397FF",
        ),
        (false, ThemePreset::Ocean) => style_of(
            "#EEF8FCFF", "#C7E1ECFF", "#477080FF", "#16333FFF", "#58737FFF", "#C94D4DFF",
            "#188BC0FF", "#AD7922FF", "#CD5151FF", "#BEDAE5FF", "#6A8C99FF",
        ),
        (true, ThemePreset::Forest) => style_of(
            "#14211DFF", "#2B4038FF", "#9AB3A8FF", "#F0FAF5FF", "#7F9C8FFF", "#F5746BFF",
            "#56C596FF", "#D9B45BFF", "#E96B5DFF", "#2B3E37FF", "#6A887BFF",
        ),
        (false, ThemePreset::Forest) => style_of(
            "#F1F7F3FF", "#CDDED3FF", "#52705FFF", "#1C3025FF", "#5C7366FF", "#BF4A42FF",
            "#2E9369FF", "#A97921FF", "#C55348FF", "#C6D8CDFF", "#71897BFF",
        ),
    }
}

/// `s` with the frosted strength of `t`.
pub open spec fn with_strength(s: StyleView, strength: u8) -> StyleView {
    StyleView { panel_frosted_strength: strength, ..s }
}

/// Canonical `#RRGGBBAA` text of `c`, or `fallback` when `value` denotes no
/// colour.
pub fn normalize_color(value: &str, fallback: &str) -> (out: String)
    requires
        !hex_cut_panics(value@),
    ensures
        out@ == normalized_color_text(value@, fallback@),
{
    match Color::try_from_hex(value) {
        Some(c) => c.to_hex_rgba(),
        None => String::from_str(fallback),
    }
}

fn style_from(
    panel_background: &str,
    panel_border: &str,
    quota_type: &str,
    remaining: &str,
    reset_time: &str,
    error: &str,
    progress_high: &str,
    progress_medium: &str,
    progress_low: &str,
    progress_consumed: &str,
    drag_handle: &str,
) -> (s: ThemeStyle)
    ensures
        s@ == style_of(
            panel_background,
            panel_border,
            quota_type,
            remaining,
            reset_time,
            error,
            progress_high,
            progress_medium,
            progress_low,
            progress_consumed,
            drag_handle,
        ),
{
    ThemeStyle {
        panel_background: String::from_str(panel_background),
        panel_border: String::from_str(panel_border),
        panel_blur_radius: 0,
        panel_frosted_strength: 0,
        quota_type: String::from_str(quota_type),
        remaining: String::from_str(remaining),
        reset_time: String::from_str(reset_time),
        error: String::from_str(error),
        progress_high: String::from_str(progress_high),
        progress_medium: String::from_str(progress_medium),
        progress_low: String::from_str(progress_low),
        progress_consumed: String::from_str(progress_consumed),
        drag_handle: String::from_str(drag_handle),
    }
}

fn same_text(a: &String, b: &String) -> (eq: bool)
    ensures
        eq == (a@ == b@),
{
    a.eq(b)
}

impl ThemeStyle {
    /// The dark theme's default colours (the Classic dark preset).
    pub fn dark_default() -> (s: Self)
        ensures
            s@ == preset_style(true, ThemePreset::Classic),
    {
        style_from(
            "#242A31FF", "#343B43FF", "#A0A0A0FF", "#FFFFFFFF", "#92979DFF", "#D95C5CFF",
            "#55A8F2FF", "#E6B84AFF", "#D95C5CFF", "#363A3FFF", "#69727CFF",
        )
    }

    /// The light theme's default colours (the Classic light preset).
    pub fn light_default() -> (s: Self)
        ensures
            s@ == preset_style(false, ThemePreset::Classic),
    {
        style_from(
            "#EEF1F4FF", "#D4D9DFFF", "#404040FF", "#202020FF", "#666666FF", "#D95C5CFF",
            "#55A8F2FF", "#E6B84AFF", "#D95C5CFF", "#AAAAAAFF", "#8A929AFF",
        )
    }

    /// The default style: the dark theme's defaults.
    pub fn default_style() -> (s: Self)
        ensures
            s@ == preset_style(true, ThemePreset::Classic),
    {
        Self::dark_default()
    }

    /// The colours of `preset` for the dark or the light theme, unfrosted.
    pub fn preset(is_dark: bool, preset: ThemePreset) -> (s: Self)
        ensures
            s@ == preset_style(is_dark, preset),
    {
        match (is_dark, preset) {
            (true, ThemePreset::Classic) => Self::dark_default(),
            (false, ThemePreset::Classic) => Self::light_default(),
            (true, ThemePreset::Ocean) => style_from(
                "#0F1B24FF", "#294252FF", "#8CA7B8FF", "#EAF7FFFF", "#7192A8FF", "#FF7474FF",
                "#3FB7E9FF", "#E3B65BFF", "#F06A6AFF", "#263B49FF", "#648397FF",
            ),
            (false, ThemePreset::Ocean) => style_from(
                "#EEF8FCFF", "#C7E1ECFF", "#477080FF", "#16333FFF", "#58737FFF", "#C94D4DFF",
                "#188BC0FF", "#AD7922FF", "#CD5151FF", "#BEDAE5FF", "#6A8C99FF",
            ),
            (true, ThemePreset::Forest) => style_from(
                "#14211DFF", "#2B4038FF", "#9AB3A8FF", "#F0FAF5FF", "#7F9C8FFF", "#F5746BFF",
                "#56C596FF", "#D9B45BFF", "#E96B5DFF", "#2B3E37FF", "#6A887BFF",
            ),
            (false, ThemePreset::Forest) => style_from(
                "#F1F7F3FF", "#CDDED3FF", "#52705FFF", "#1C3025FF", "#5C7366FF", "#BF4A42FF",
                "#2E9369FF", "#A97921FF", "#C55348FF", "#C6D8CDFF", "#71897BFF",
            ),
        }
    }

    /// Replaces the colours by those of `preset`, keeping the frosted strength.
    pub fn apply_preset(&mut self, is_dark: bool, preset: ThemePreset)
        ensures
            final(self)@ == with_strength(
                preset_style(is_dark, preset),
                old(self).panel_frosted_strength,
            ),
    {
        let frosted_strength = self.panel_frosted_strength;
        let mut replacement = Self::preset(is_dark, preset);
        replacement.panel_frosted_strength = frosted_strength;
        *self = replacement;
    }

    /// Whether every field equals that of `other`.
    pub fn same_as(&self, other: &Self) -> (eq: bool)
        ensures
            eq == (self@ == other@),
    {
        same_text(&self.panel_background, &other.panel_background) && same_text(
            &self.panel_border,
            &other.panel_border,
        ) && self.panel_blur_radius == other.panel_blur_radius && self.panel_frosted_strength
            == other.panel_frosted_strength && same_text(&self.quota_type, &other.quota_type)
            && same_text(&self.remaining, &other.remaining) && same_text(
            &self.reset_time,
            &other.reset_time,
        ) && same_text(&self.error, &other.error) && same_text(
            &self.progress_high,
            &other.progress_high,
        ) && same_text(&self.progress_medium, &other.progress_medium) && same_text(
            &self.progress_low,
            &other.progress_low,
        ) && same_text(&self.progress_consumed, &other.progress_consumed) && same_text(
            &self.drag_handle,
            &other.drag_handle,
        )
    }

    /// Whether this style has the colours of `preset` (any frosted strength).
    pub fn matches_preset(&self, is_dark: bool, preset: ThemePreset) -> (m: bool)
        ensures
            m == (self@ == with_strength(preset_style(is_dark, preset), self.panel_frosted_strength)),
    {
        let mut expected = Self::preset(is_dark, preset);
        expected.panel_frosted_strength = self.panel_frosted_strength;
        self.same_as(&expected)
    }

    /// Replaces each colour that denotes no colour by the fallback's, writes
    /// the others in canonical form, migrates the legacy frosted setting and
    /// caps the strength.
    pub fn normalize(&mut self, fallback: &Self)
        requires
            colors_readable(old(self)@),
        ensures
            final(self)@ == normalized_style(old(self)@, fallback@),
    {
        assert(!hex_cut_panics(color_text(self@, StyleColorTarget::PanelBackground)));
        assert(!hex_cut_panics(color_text(self@, StyleColorTarget::PanelBorder)));
        assert(!hex_cut_panics(color_text(self@, StyleColorTarget::QuotaType)));
        assert(!hex_cut_panics(color_text(self@, StyleColorTarget::Remaining)));
        assert(!hex_cut_panics(color_text(self@, StyleColorTarget::ResetTime)));
        assert(!hex_cut_panics(color_text(self@, StyleColorTarget::Error)));
        assert(!hex_cut_panics(color_text(self@, StyleColorTarget::ProgressHigh)));
        assert(!hex_cut_panics(color_text(self@, StyleColorTarget::ProgressMedium)));
        assert(!hex_cut_panics(color_text(self@, StyleColorTarget::ProgressLow)));
        assert(!hex_cut_panics(color_text(self@, StyleColorTarget::ProgressConsumed)));
        assert(!hex_cut_panics(color_text(self@, StyleColorTarget::DragHandle)));
        self.panel_background = normalize_color(&self.panel_background, &fallback.panel_background);
        self.panel_border = normalize_color(&self.panel_border, &fallback.panel_border);
        self.quota_type = normalize_color(&self.quota_type, &fallback.quota_type);
        self.remaining = normalize_color(&self.remaining, &fallback.remaining);
        self.reset_time = normalize_color(&self.reset_time, &fallback.reset_time);
        self.error = normalize_color(&self.error, &fallback.error);
        self.progress_high = normalize_color(&self.progress_high, &fallback.progress_high);
        self.progress_medium = normalize_color(&self.progress_medium, &fallback.progress_medium);
        self.progress_low = normalize_color(&self.progress_low, &fallback.progress_low);
        self.progress_consumed = normalize_color(
            &self.progress_consumed,
            &fallback.progress_consumed,
        );
        self.drag_handle = normalize_color(&self.drag_handle, &fallback.drag_handle);
        if self.panel_frosted_strength == LEGACY_FROSTED_STRENGTH_SENTINEL {
            self.panel_frosted_strength = if self.panel_blur_radius > 0 {
                FROSTED_STRENGTH_MAX
            } else {
                0
            };
        } else {
            self.panel_frosted_strength =
                if self.panel_frosted_strength < FROSTED_STRENGTH_MAX {
                    self.panel_frosted_strength
                } else {
                    FROSTED_STRENGTH_MAX
                };
        }
        self.panel_blur_radius = 0;
    }

    /// Whether every colour setting can be read without cutting a character
    /// apart (what normalising and reading colours need).
    pub fn colors_are_readable(&self) -> (b: bool)
        ensures
            b == colors_readable(self@),
    {
        let b = !hex_text_cuts_char(self.panel_background.as_str())
            && !hex_text_cuts_char(self.panel_border.as_str())
            && !hex_text_cuts_char(self.quota_type.as_str())
            && !hex_text_cuts_char(self.remaining.as_str())
            && !hex_text_cuts_char(self.reset_time.as_str())
            && !hex_text_cuts_char(self.error.as_str())
            && !hex_text_cuts_char(self.progress_high.as_str())
            && !hex_text_cuts_char(self.progress_medium.as_str())
            && !hex_text_cuts_char(self.progress_low.as_str())
            && !hex_text_cuts_char(self.progress_consumed.as_str())
            && !hex_text_cuts_char(self.drag_handle.as_str());
        proof {
            if b {
                assert forall|t: StyleColorTarget| !hex_cut_panics(#[trigger] color_text(self@, t)) by {
                    match t {
                        StyleColorTarget::PanelBackground => {},
                        StyleColorTarget::PanelBorder => {},
                        StyleColorTarget::QuotaType => {},
                        StyleColorTarget::Remaining => {},
                        StyleColorTarget::ResetTime => {},
                        StyleColorTarget::Error => {},
                        StyleColorTarget::ProgressHigh => {},
                        StyleColorTarget::ProgressMedium => {},
                        StyleColorTarget::ProgressLow => {},
                        StyleColorTarget::ProgressConsumed => {},
                        StyleColorTarget::DragHandle => {},
                    }
                }
            } else {
                assert(!hex_cut_panics(color_text(self@, StyleColorTarget::PanelBackground))
                    && !hex_cut_panics(color_text(self@, StyleColorTarget::PanelBorder))
                    && !hex_cut_panics(color_text(self@, StyleColorTarget::QuotaType))
                    && !hex_cut_panics(color_text(self@, StyleColorTarget::Remaining))
                    && !hex_cut_panics(color_text(self@, StyleColorTarget::ResetTime))
                    && !hex_cut_panics(color_text(self@, StyleColorTarget::Error))
                    && !hex_cut_panics(color_text(self@, StyleColorTarget::ProgressHigh))
                    && !hex_cut_panics(color_text(self@, StyleColorTarget::ProgressMedium))
                    && !hex_cut_panics(color_text(self@, StyleColorTarget::ProgressLow))
                    && !hex_cut_panics(color_text(self@, StyleColorTarget::ProgressConsumed))
                    && !hex_cut_panics(color_text(self@, StyleColorTarget::DragHandle))
                    ==> b);
            }
        }
        b
    }

    /// The colour that the setting `target` stands for (opaque black when its
    /// text denotes none).
    pub fn color(&self, target: StyleColorTarget) -> (c: Color)
        requires
            !hex_cut_panics(color_text(self@, target)),
        ensures
            c == color_of_text(color_text(self@, target)),
    {
        let value = match target {
            StyleColorTarget::PanelBackground => &self.panel_background,
            StyleColorTarget::PanelBorder => &self.panel_border,
            StyleColorTarget::QuotaType => &self.quota_type,
            StyleColorTarget::Remaining => &self.remaining,
            StyleColorTarget::ResetTime => &self.reset_time,
            StyleColorTarget::Error => &self.error,
            StyleColorTarget::ProgressHigh => &self.progress_high,
            StyleColorTarget::ProgressMedium => &self.progress_medium,
            StyleColorTarget::ProgressLow => &self.progress_low,
            StyleColorTarget::ProgressConsumed => &self.progress_consumed,
            StyleColorTarget::DragHandle => &self.drag_handle,
        };
        Color::from_hex(value.as_str())
    }

    /// Sets the colour setting `target` to the `#RRGGBBAA` text of `color`.
    pub fn set_color(&mut self, target: StyleColorTarget, color: Color)
        ensures
            final(self)@ == with_color_text(old(self)@, target, hex_rgba_text(color)),
    {
        let text = color.to_hex_rgba();
        match target {
            StyleColorTarget::PanelBackground => self.panel_background = text,
            StyleColorTarget::PanelBorder => self.panel_border = text,
            StyleColorTarget::QuotaType => self.quota_type = text,
            StyleColorTarget::Remaining => self.remaining = text,
            StyleColorTarget::ResetTime => self.reset_time = text,
            StyleColorTarget::Error => self.error = text,
            StyleColorTarget::ProgressHigh => self.progress_high = text,
            StyleColorTarget::ProgressMedium => self.progress_medium = text,
            StyleColorTarget::ProgressLow => self.progress_low = text,
            StyleColorTarget::ProgressConsumed => self.progress_consumed = text,
            StyleColorTarget::DragHandle => self.drag_handle = text,
        }
    }
}

impl Default for ThemeStyle {
    fn default() -> (s: Self)
        ensures
            s@ == preset_style(true, ThemePreset::Classic),
    {
        ThemeStyle::dark_default()
    }
}

/// The dark and the light theme styles.
#[derive(Clone, Debug)]
pub struct StyleSettings {
    pub dark: ThemeStyle,
    pub light: ThemeStyle,
}

impl Default for StyleSettings {
    fn default() -> (s: Self)
        ensures
            s.dark@ == preset_style(true, ThemePreset::Classic),
            s.light@ == preset_style(false, ThemePreset::Classic),
    {
        StyleSettings::default_settings()
    }
}

impl StyleSettings {
    /// Both themes at their defaults.
    pub fn default_settings() -> (s: Self)
        ensures
            s.dark@ == preset_style(true, ThemePreset::Classic),
            s.light@ == preset_style(false, ThemePreset::Classic),
    {
        Self { dark: ThemeStyle::dark_default(), light: ThemeStyle::light_default() }
    }

    /// Normalises each theme against its defaults.
    pub fn normalize(&mut self)
        requires
            colors_readable(old(self).dark@),
            colors_readable(old(self).light@),
        ensures
            final(self).dark@ == normalized_style(
                old(self).dark@,
                preset_style(true, ThemePreset::Classic),
            ),
            final(self).light@ == normalized_style(
                old(self).light@,
                preset_style(false, ThemePreset::Classic),
            ),
    {
        self.dark.normalize(&ThemeStyle::dark_default());
        self.light.normalize(&ThemeStyle::light_default());
    }

    /// The style of the dark or the light theme.
    pub fn active(&self, is_dark: bool) -> (s: &ThemeStyle)
        ensures
            *s == if is_dark {
                self.dark
            } else {
                self.light
            },
    {
        if is_dark {
            &self.dark
        } else {
            &self.light
        }
    }

    /// The style of the dark or the light theme, to change in place.
    pub fn active_mut(&mut self, is_dark: bool) -> (s: &mut ThemeStyle)
        ensures
            *s == if is_dark {
                old(self).dark
            } else {
                old(self).light
            },
            is_dark ==> *final(self) == (StyleSettings { dark: *final(s), light: old(self).light }),
            !is_dark ==> *final(self) == (StyleSettings { dark: old(self).dark, light: *final(s) }),
    {
        if is_dark {
            &mut self.dark
        } else {
            &mut self.light
        }
    }

    /// Puts the dark or the light theme back to its defaults.
    pub fn reset_active(&mut self, is_dark: bool)
        ensures
            is_dark ==> final(self).dark@ == preset_style(true, ThemePreset::Classic)
                && final(self).light == old(self).light,
            !is_dark ==> final(self).light@ == preset_style(false, ThemePreset::Classic)
                && final(self).dark == old(self).dark,
    {
        if is_dark {
            self.dark = ThemeStyle::dark_default();
        } else {
            self.light = ThemeStyle::light_default();
        }
    }
}


/// `t` is the canonical `#RRGGBBAA` text of the colour it denotes.
pub open spec fn canonical_color_text(t: Seq<char>) -> bool {
    parse_color(t) matches Some(c) && hex_rgba_text(c) == t
}

/// Every colour setting of `s` is in canonical form.
pub open spec fn style_canonical(s: StyleView) -> bool {
    forall|t: StyleColorTarget| canonical_color_text(#[trigger] color_text(s, t))
}

proof fn lemma_hex_text_canonical(c: Color)
    ensures
        canonical_color_text(hex_rgba_text(c)),
        !hex_cut_panics(hex_rgba_text(c)),
{
    crate::color::lemma_hex_rgba_round_trip(c);
}

proof fn lemma_literal_canonical(s: &str, c: Color)
    requires
        s@ == hex_rgba_text(c),
    ensures
        canonical_color_text(s@),
        !hex_cut_panics(s@),
{
    lemma_hex_text_canonical(c);
}

/// Law: the default styles of both themes are in canonical form.
pub proof fn lemma_default_styles_canonical()
    ensures
        style_canonical(preset_style(true, ThemePreset::Classic)),
        style_canonical(preset_style(false, ThemePreset::Classic)),
        colors_readable(preset_style(true, ThemePreset::Classic)),
        colors_readable(preset_style(false, ThemePreset::Classic)),
{
    lemma_dark_default_literals();
    lemma_light_default_literals();
    assert forall|t: StyleColorTarget| canonical_color_text(
        #[trigger] color_text(preset_style(true, ThemePreset::Classic), t),
    ) && !hex_cut_panics(color_text(preset_style(true, ThemePreset::Classic), t)) by {}
    assert forall|t: StyleColorTarget| canonical_color_text(
        #[trigger] color_text(preset_style(false, ThemePreset::Classic), t),
    ) && !hex_cut_panics(color_text(preset_style(false, ThemePreset::Classic), t)) by {}
}

proof fn lemma_dark_default_literals()
    ensures
        forall|t: StyleColorTarget| canonical_color_text(
            #[trigger] color_text(preset_style(true, ThemePreset::Classic), t),
        ) && !hex_cut_panics(color_text(preset_style(true, ThemePreset::Classic), t)),
{
    reveal_strlit("#242A31FF");
    assert("#242A31FF"@ =~= hex_rgba_text(Color { r: 0x24, g: 0x2A, b: 0x31, a: 0xFF }));
    lemma_literal_canonical("#242A31FF", Color { r: 0x24, g: 0x2A, b: 0x31, a: 0xFF });
    reveal_strlit("#343B43FF");
    assert("#343B43FF"@ =~= hex_rgba_text(Color { r: 0x34, g: 0x3B, b: 0x43, a: 0xFF }));
    lemma_literal_canonical("#343B43FF", Color { r: 0x34, g: 0x3B, b: 0x43, a: 0xFF });
    reveal_strlit("#A0A0A0FF");
    assert("#A0A0A0FF"@ =~= hex_rgba_text(Color { r: 0xA0, g: 0xA0, b: 0xA0, a: 0xFF }));
    lemma_literal_canonical("#A0A0A0FF", Color { r: 0xA0, g: 0xA0, b: 0xA0, a: 0xFF });
    reveal_strlit("#FFFFFFFF");
    assert("#FFFFFFFF"@ =~= hex_rgba_text(Color { r: 0xFF, g: 0xFF, b: 0xFF, a: 0xFF }));
    lemma_literal_canonical("#FFFFFFFF", Color { r: 0xFF, g: 0xFF, b: 0xFF, a: 0xFF });
    reveal_strlit("#92979DFF");
    assert("#92979DFF"@ =~= hex_rgba_text(Color { r: 0x92, g: 0x97, b: 0x9D, a: 0xFF }));
    lemma_literal_canonical("#92979DFF", Color { r: 0x92, g: 0x97, b: 0x9D, a: 0xFF });
    reveal_strlit("#D95C5CFF");
    assert("#D95C5CFF"@ =~= hex_rgba_text(Color { r: 0xD9, g: 0x5C, b: 0x5C, a: 0xFF }));
    lemma_literal_canonical("#D95C5CFF", Color { r: 0xD9, g: 0x5C, b: 0x5C, a: 0xFF });
    reveal_strlit("#55A8F2FF");
    assert("#55A8F2FF"@ =~= hex_rgba_text(Color { r: 0x55, g: 0xA8, b: 0xF2, a: 0xFF }));
    lemma_literal_canonical("#55A8F2FF", Color { r: 0x55, g: 0xA8, b: 0xF2, a: 0xFF });
    reveal_strlit("#E6B84AFF");
    assert("#E6B84AFF"@ =~= hex_rgba_text(Color { r: 0xE6, g: 0xB8, b: 0x4A, a: 0xFF }));
    lemma_literal_canonical("#E6B84AFF", Color { r: 0xE6, g: 0xB8, b: 0x4A, a: 0xFF });
    reveal_strlit("#363A3FFF");
    assert("#363A3FFF"@ =~= hex_rgba_text(Color { r: 0x36, g: 0x3A, b: 0x3F, a: 0xFF }));
    lemma_literal_canonical("#363A3FFF", Color { r: 0x36, g: 0x3A, b: 0x3F, a: 0xFF });
    reveal_strlit("#69727CFF");
    assert("#69727CFF"@ =~= hex_rgba_text(Color { r: 0x69, g: 0x72, b: 0x7C, a: 0xFF }));
    lemma_literal_canonical("#69727CFF", Color { r: 0x69, g: 0x72, b: 0x7C, a: 0xFF });
}

proof fn lemma_light_default_literals()
    ensures
        forall|t: StyleColorTarget| canonical_color_text(
            #[trigger] color_text(preset_style(false, ThemePreset::Classic), t),
        ) && !hex_cut_panics(color_text(preset_style(false, ThemePreset::Classic), t)),
{
    reveal_strlit("#EEF1F4FF");
    assert("#EEF1F4FF"@ =~= hex_rgba_text(Color { r: 0xEE, g: 0xF1, b: 0xF4, a: 0xFF }));
    lemma_literal_canonical("#EEF1F4FF", Color { r: 0xEE, g: 0xF1, b: 0xF4, a: 0xFF });
    reveal_strlit("#D4D9DFFF");
    assert("#D4D9DFFF"@ =~= hex_rgba_text(Color { r: 0xD4, g: 0xD9, b: 0xDF, a: 0xFF }));
    lemma_literal_canonical("#D4D9DFFF", Color { r: 0xD4, g: 0xD9, b: 0xDF, a: 0xFF });
    reveal_strlit("#404040FF");
    assert("#404040FF"@ =~= hex_rgba_text(Color { r: 0x40, g: 0x40, b: 0x40, a: 0xFF }));
    lemma_literal_canonical("#404040FF", Color { r: 0x40, g: 0x40, b: 0x40, a: 0xFF });
    reveal_strlit("#202020FF");
    assert("#202020FF"@ =~= hex_rgba_text(Color { r: 0x20, g: 0x20, b: 0x20, a: 0xFF }));
    lemma_literal_canonical("#202020FF", Color { r: 0x20, g: 0x20, b: 0x20, a: 0xFF });
    reveal_strlit("#666666FF");
    assert("#666666FF"@ =~= hex_rgba_text(Color { r: 0x66, g: 0x66, b: 0x66, a: 0xFF }));
    lemma_literal_canonical("#666666FF", Color { r: 0x66, g: 0x66, b: 0x66, a: 0xFF });
    reveal_strlit("#D95C5CFF");
    assert("#D95C5CFF"@ =~= hex_rgba_text(Color { r: 0xD9, g: 0x5C, b: 0x5C, a: 0xFF }));
    lemma_literal_canonical("#D95C5CFF", Color { r: 0xD9, g: 0x5C, b: 0x5C, a: 0xFF });
    reveal_strlit("#55A8F2FF");
    assert("#55A8F2FF"@ =~= hex_rgba_text(Color { r: 0x55, g: 0xA8, b: 0xF2, a: 0xFF }));
    lemma_literal_canonical("#55A8F2FF", Color { r: 0x55, g: 0xA8, b: 0xF2, a: 0xFF });
    reveal_strlit("#E6B84AFF");
    assert("#E6B84AFF"@ =~= hex_rgba_text(Color { r: 0xE6, g: 0xB8, b: 0x4A, a: 0xFF }));
    lemma_literal_canonical("#E6B84AFF", Color { r: 0xE6, g: 0xB8, b: 0x4A, a: 0xFF });
    reveal_strlit("#AAAAAAFF");
    assert("#AAAAAAFF"@ =~= hex_rgba_text(Color { r: 0xAA, g: 0xAA, b: 0xAA, a: 0xFF }));
    lemma_literal_canonical("#AAAAAAFF", Color { r: 0xAA, g: 0xAA, b: 0xAA, a: 0xFF });
    reveal_strlit("#8A929AFF");
    assert("#8A929AFF"@ =~= hex_rgba_text(Color { r: 0x8A, g: 0x92, b: 0x9A, a: 0xFF }));
    lemma_literal_canonical("#8A929AFF", Color { r: 0x8A, g: 0x92, b: 0x9A, a: 0xFF });
}

proof fn lemma_canonical_readable(t: Seq<char>)
    requires
        canonical_color_text(t),
    ensures
        !hex_cut_panics(t),
{
    lemma_hex_text_canonical(parse_color(t).unwrap());
}

proof fn lemma_normalized_color_text(v: Seq<char>, f: Seq<char>)
    requires
        canonical_color_text(f),
    ensures
        canonical_color_text(normalized_color_text(v, f)),
        normalized_color_text(normalized_color_text(v, f), f) == normalized_color_text(v, f),
{
    match parse_color(v) {
        Some(c) => {
            lemma_hex_text_canonical(c);
        },
        None => {},
    }
}

/// Law: against a canonical fallback, normalising yields a canonical style
/// without legacy fields whose strength is within range, and normalising again
/// changes nothing.
pub proof fn lemma_normalize_idempotent(s: StyleView, fallback: StyleView)
    requires
        style_canonical(fallback),
    ensures
        style_canonical(normalized_style(s, fallback)),
        colors_readable(normalized_style(s, fallback)),
        normalized_style(s, fallback).panel_frosted_strength <= FROSTED_STRENGTH_MAX,
        normalized_style(s, fallback).panel_blur_radius == 0,
        normalized_style(normalized_style(s, fallback), fallback) == normalized_style(s, fallback),
{
    let n = normalized_style(s, fallback);
    assert forall|t: StyleColorTarget| canonical_color_text(#[trigger] color_text(n, t))
        && normalized_color_text(color_text(n, t), color_text(fallback, t)) == color_text(n, t) by {
        assert(canonical_color_text(color_text(fallback, t)));
        lemma_normalized_color_text(color_text(s, t), color_text(fallback, t));
        assert(color_text(n, t) == normalized_color_text(color_text(s, t), color_text(fallback, t)));
    }
    assert forall|t: StyleColorTarget| !hex_cut_panics(#[trigger] color_text(n, t)) by {
        lemma_canonical_readable(color_text(n, t));
    }
    let m = normalized_style(n, fallback);
    assert(color_text(n, StyleColorTarget::PanelBackground) == n.panel_background);
    assert(m.panel_background == n.panel_background);
    assert(color_text(n, StyleColorTarget::PanelBorder) == n.panel_border);
    assert(m.panel_border == n.panel_border);
    assert(color_text(n, StyleColorTarget::QuotaType) == n.quota_type);
    assert(color_text(n, StyleColorTarget::Remaining) == n.remaining);
    assert(color_text(n, StyleColorTarget::ResetTime) == n.reset_time);
    assert(color_text(n, StyleColorTarget::Error) == n.error);
    assert(color_text(n, StyleColorTarget::ProgressHigh) == n.progress_high);
    assert(color_text(n, StyleColorTarget::ProgressMedium) == n.progress_medium);
    assert(color_text(n, StyleColorTarget::ProgressLow) == n.progress_low);
    assert(color_text(n, StyleColorTarget::ProgressConsumed) == n.progress_consumed);
    assert(color_text(n, StyleColorTarget::DragHandle) == n.drag_handle);
}

/// Law: normalising the settings of both themes twice is the same as once.
pub proof fn lemma_settings_normalize_idempotent(dark: StyleView, light: StyleView)
    ensures
        normalized_style(
            normalized_style(dark, preset_style(true, ThemePreset::Classic)),
            preset_style(true, ThemePreset::Classic),
        ) == normalized_style(dark, preset_style(true, ThemePreset::Classic)),
        normalized_style(
            normalized_style(light, preset_style(false, ThemePreset::Classic)),
            preset_style(false, ThemePreset::Classic),
        ) == normalized_style(light, preset_style(false, ThemePreset::Classic)),
        colors_readable(normalized_style(dark, preset_style(true, ThemePreset::Classic))),
        colors_readable(normalized_style(light, preset_style(false, ThemePreset::Classic))),
{
    lemma_default_styles_canonical();
    lemma_normalize_idempotent(dark, preset_style(true, ThemePreset::Classic));
    lemma_normalize_idempotent(light, preset_style(false, ThemePreset::Classic));
}

/// Law: applying a preset keeps the frosted strength, and the style then
/// matches that preset.
pub proof fn lemma_apply_preset_matches(s: StyleView, is_dark: bool, preset: ThemePreset)
    ensures
        ({
            let applied = with_strength(preset_style(is_dark, preset), s.panel_frosted_strength);
            &&& applied.panel_frosted_strength == s.panel_frosted_strength
            &&& applied == with_strength(
                preset_style(is_dark, preset),
                applied.panel_frosted_strength,
            )
        }),
{
}

/// Law: after setting a colour setting to a colour, reading that setting gives
/// the colour back, and the other settings are unchanged.
pub proof fn lemma_set_color_round_trip(
    s: StyleView,
    target: StyleColorTarget,
    other: StyleColorTarget,
    c: Color,
)
    ensures
        !hex_cut_panics(color_text(with_color_text(s, target, hex_rgba_text(c)), target)),
        color_of_text(color_text(with_color_text(s, target, hex_rgba_text(c)), target)) == c,
        other != target ==> color_text(with_color_text(s, target, hex_rgba_text(c)), other)
            == color_text(s, other),
{
    crate::color::lemma_hex_rgba_round_trip(c);
}

} // verus!
