use vstd::prelude::*;

use crate::color::{hex_cut_panics, hex_rgba_text, lemma_hex_rgba_round_trip, Color};
use crate::style::{color_of_text, color_text, with_color_text, StyleColorTarget, StyleView, ThemeStyle};
use crate::widget::{dpi_scaled, scale_px, MAX_LAYOUT_DPI, PANEL_BORDER_WIDTH_PX};

verus! {

/// `0x00RRGGBB`: a pixel of the widget bitmap from its channels.
pub open spec fn rgb_pixel(r: int, g: int, b: int) -> int {
    r * 65536 + g * 256 + b
}

/// The red, green and blue channels of a pixel.
pub open spec fn pixel_channels(pixel: u32) -> (int, int, int) {
    ((pixel as int / 65536) % 256, (pixel as int / 256) % 256, pixel as int % 256)
}

/// One channel of `fg` over `bg` at opacity `a` of 255, rounded.
pub open spec fn mix_channel(fg: int, bg: int, a: int) -> int {
    (fg * a + bg * (255 - a) + 127) / 255
}

/// The colour `color` laid over the pixel `pixel`, as an opaque-flagged
/// `0x00RRGGBB` value.
pub open spec fn blended_pixel(pixel: u32, color: Color) -> int {
    if color.a == 0 {
        pixel as int % 16777216
    } else if color.a == 255 {
        rgb_pixel(color.r as int, color.g as int, color.b as int)
    } else {
        let (r, g, b) = pixel_channels(pixel);
        rgb_pixel(
            mix_channel(color.r as int, r, color.a as int),
            mix_channel(color.g as int, g, color.a as int),
            mix_channel(color.b as int, b, color.a as int),
        )
    }
}

/// The colour as a premultiplied `0xAARRGGBB` pixel.
pub open spec fn premultiplied(color: Color) -> int {
    let a = color.a as int;
    if a == 0 {
        0
    } else {
        a * 16777216 + rgb_pixel(
            (color.r as int * a + 127) / 255,
            (color.g as int * a + 127) / 255,
            (color.b as int * a + 127) / 255,
        )
    }
}

proof fn lemma_mix_channel_bounds(fg: int, bg: int, a: int)
    requires
        0 <= fg < 256,
        0 <= bg < 256,
        0 <= a <= 255,
    ensures
        0 <= fg * a + bg * (255 - a) + 127 <= 255 * 255 + 127,
        0 <= mix_channel(fg, bg, a) < 256,
{
    assert(0 <= fg * a <= 255 * a) by (nonlinear_arith)
        requires
            0 <= fg < 256,
            0 <= a <= 255,
    ;
    assert(0 <= bg * (255 - a) <= 255 * (255 - a)) by (nonlinear_arith)
        requires
            0 <= bg < 256,
            0 <= a <= 255,
    ;
}

/// The `0x00RRGGBB` fill value of a colour.
pub fn rgb_value(color: Color) -> (v: u32)
    ensures
        v == rgb_pixel(color.r as int, color.g as int, color.b as int),
{
    color.r as u32 * 65536 + color.g as u32 * 256 + color.b as u32
}

/// Fills every pixel with the colour's `0x00RRGGBB` value.
pub fn fill_bitmap(pixels: &mut Vec<u32>, color: Color)
    ensures
        final(pixels)@.len() == old(pixels)@.len(),
        forall|i: int|
            0 <= i < final(pixels)@.len() ==> #[trigger] final(pixels)@[i] == rgb_pixel(
                color.r as int,
                color.g as int,
                color.b as int,
            ),
{
    let value = rgb_value(color);
    let mut i: usize = 0;
    while i < pixels.len()
        invariant
            i <= pixels@.len(),
            pixels@.len() == old(pixels)@.len(),
            value == rgb_pixel(color.r as int, color.g as int, color.b as int),
            forall|j: int| 0 <= j < i ==> #[trigger] pixels@[j] == value,
        decreases pixels.len() - i,
    {
        pixels.set(i, value);
        i = i + 1;
    }
}

/// Lays `color` over `pixel`: transparent keeps the pixel (dropping its
/// alpha byte), opaque replaces it, anything between mixes each channel.
pub fn blend_pixel(pixel: u32, color: Color) -> (v: u32)
    ensures
        v == blended_pixel(pixel, color),
{
    if color.a == 0 {
        return pixel % 16777216;
    }
    if color.a == 255 {
        return rgb_value(color);
    }
    let bg_b = pixel % 256;
    let bg_g = (pixel / 256) % 256;
    let bg_r = (pixel / 65536) % 256;
    let a = color.a as u32;
    let inv = 255 - a;
    proof {
        lemma_mix_channel_bounds(color.r as int, bg_r as int, a as int);
        lemma_mix_channel_bounds(color.g as int, bg_g as int, a as int);
        lemma_mix_channel_bounds(color.b as int, bg_b as int, a as int);
    }
    let r = (color.r as u32 * a + bg_r * inv + 127) / 255;
    let g = (color.g as u32 * a + bg_g * inv + 127) / 255;
    let b = (color.b as u32 * a + bg_b * inv + 127) / 255;
    r * 65536 + g * 256 + b
}

/// The colour as a premultiplied `0xAARRGGBB` pixel; fully transparent is 0.
pub fn premultiplied_pixel(color: Color) -> (v: u32)
    ensures
        v == premultiplied(color),
{
    let alpha = color.a as u32;
    if alpha == 0 {
        return 0;
    }
    proof {
        lemma_mix_channel_bounds(color.r as int, 0, alpha as int);
        lemma_mix_channel_bounds(color.g as int, 0, alpha as int);
        lemma_mix_channel_bounds(color.b as int, 0, alpha as int);
    }
    let r = (color.r as u32 * alpha + 127) / 255;
    let g = (color.g as u32 * alpha + 127) / 255;
    let b = (color.b as u32 * alpha + 127) / 255;
    alpha * 16777216 + r * 65536 + g * 256 + b
}

/// Inset of the panel from the widget's edge: one pixel scaled to `dpi`, at
/// least one.
pub open spec fn outer_inset(dpi: int) -> int {
    if dpi_scaled(1, dpi) > 1 {
        dpi_scaled(1, dpi)
    } else {
        1
    }
}

/// The panel colour at `(x, y)` of a widget `width` by `height`: none
/// outside the panel, the border colour on its edge, the background inside.
pub open spec fn panel_color(
    fill: Color,
    border: Color,
    width: int,
    height: int,
    x: int,
    y: int,
    dpi: int,
) -> Option<Color> {
    let outer = outer_inset(dpi);
    let inner = outer + 1;
    if x < outer || x >= width - outer || y < outer || y >= height - outer {
        None
    } else if x >= inner && x < width - inner && y >= inner && y < height - inner {
        Some(fill)
    } else {
        Some(border)
    }
}

/// The panel's background and border colours are readable in `style`.
pub open spec fn panel_colors_readable(style: &ThemeStyle) -> bool {
    &&& !hex_cut_panics(color_text(style@, StyleColorTarget::PanelBackground))
    &&& !hex_cut_panics(color_text(style@, StyleColorTarget::PanelBorder))
}

/// The panel colour at `(x, y)` in `style`.
pub open spec fn style_panel_color(style: ThemeStyle, width: int, height: int, x: int, y: int, dpi: int) -> Option<Color> {
    panel_color(
        color_of_text(color_text(style@, StyleColorTarget::PanelBackground)),
        color_of_text(color_text(style@, StyleColorTarget::PanelBorder)),
        width,
        height,
        x,
        y,
        dpi,
    )
}

fn panel_inset(dpi: u32) -> (v: i32)
    requires
        dpi <= MAX_LAYOUT_DPI,
    ensures
        v == outer_inset(dpi as int),
        1 <= v <= 1001,
{
    assert(0 <= 1 * dpi <= 96000);
    let s = scale_px(1, dpi);
    assert(s <= 1001);
    if s > 1 {
        s
    } else {
        1
    }
}

/// The colour of the panel at `(x, y)`, if the point is on the panel.
pub fn panel_color_at(style: &ThemeStyle, width: i32, height: i32, x: i32, y: i32, dpi: u32) -> (c: Option<Color>)
    requires
        dpi <= MAX_LAYOUT_DPI,
        panel_colors_readable(style),
        width >= i32::MIN + 2000,
        height >= i32::MIN + 2000,
    ensures
        c == style_panel_color(*style, width as int, height as int, x as int, y as int, dpi as int),
{
    let outer = panel_inset(dpi);
    if x < outer || x >= width - outer || y < outer || y >= height - outer {
        return None;
    }
    let inner = outer + PANEL_BORDER_WIDTH_PX;
    if x >= inner && x < width - inner && y >= inner && y < height - inner {
        Some(style.color(StyleColorTarget::PanelBackground))
    } else {
        Some(style.color(StyleColorTarget::PanelBorder))
    }
}

/// The bitmap size conditions of the panel passes: a positive width, and
/// `width * height` pixels that fit both the buffer and 32-bit indices.
pub open spec fn bitmap_fits(len: int, width: int, height: int) -> bool {
    &&& 0 < width
    &&& 0 <= height
    &&& width * height <= len
    &&& width * height <= i32::MAX
}

proof fn lemma_index_coordinates(idx: int, width: int, height: int)
    requires
        0 < width,
        0 <= idx < width * height,
    ensures
        0 <= idx / width < height,
        0 <= idx % width < width,
        (idx / width) * width + idx % width == idx,
{
    assert(0 <= idx / width < height && 0 <= idx % width < width && (idx / width) * width + idx % width
        == idx) by (nonlinear_arith)
        requires
            0 < width,
            0 <= idx < width * height,
    ;
}

/// Lays the panel over the backdrop already in `pixels`: each pixel of the
/// panel is blended with the panel colour there; the rest is left as it is.
#[verifier::spinoff_prover]
pub fn blend_panel_bitmap(pixels: &mut Vec<u32>, width: i32, height: i32, style: &ThemeStyle, dpi: u32)
    requires
        dpi <= MAX_LAYOUT_DPI,
        panel_colors_readable(style),
        bitmap_fits(old(pixels)@.len() as int, width as int, height as int),
    ensures
        final(pixels)@.len() == old(pixels)@.len(),
        forall|i: int|
            0 <= i < final(pixels)@.len() ==> #[trigger] final(pixels)@[i] == if i < width * height {
                match style_panel_color(*style, width as int, height as int, i % width as int, i / width as int, dpi as int) {
                    Some(c) => blended_pixel(old(pixels)@[i], c),
                    None => old(pixels)@[i] as int,
                }
            } else {
                old(pixels)@[i] as int
            },
{
    let total: i32 = width * height;
    let mut idx: i32 = 0;
    while idx < total
        invariant
            0 <= idx <= total,
            total == width * height,
            dpi <= MAX_LAYOUT_DPI,
            panel_colors_readable(style),
            bitmap_fits(old(pixels)@.len() as int, width as int, height as int),
            pixels@.len() == old(pixels)@.len(),
            forall|i: int|
                0 <= i < pixels@.len() ==> #[trigger] pixels@[i] == if i < idx {
                    match style_panel_color(*style, width as int, height as int, i % width as int, i / width as int, dpi as int) {
                        Some(c) => blended_pixel(old(pixels)@[i], c),
                        None => old(pixels)@[i] as int,
                    }
                } else {
                    old(pixels)@[i] as int
                },
        decreases total - idx,
    {
        proof {
            lemma_index_coordinates(idx as int, width as int, height as int);
        }
        let y = idx / width;
        let x = idx % width;
        let u = idx as usize;
        match panel_color_at(style, width, height, x, y, dpi) {
            Some(color) => {
                let v = blend_pixel(pixels[u], color);
                pixels.set(u, v);
            },
            None => {},
        }
        idx = idx + 1;
    }
}

/// The layered window's pixel at index `i` of a widget `width` pixels wide:
/// transparent off the panel; where content was drawn over the panel (the
/// drawn pixel differs from the bare panel's), the drawn colour made opaque;
/// on bare panel its colour premultiplied.
pub open spec fn layered_pixel(style: ThemeStyle, drawn: u32, panel: u32, width: int, height: int, i: int, dpi: int) -> int {
    match style_panel_color(style, width, height, i % width, i / width, dpi) {
        None => 0,
        Some(c) => if drawn != panel {
            drawn as int % 16777216 + 0xFF000000
        } else {
            premultiplied(c)
        },
    }
}

/// Turns the drawn widget into the layered window's premultiplied pixels:
/// outside the panel transparent, where content was drawn over the panel
/// opaque, and bare panel its own colour premultiplied.
#[verifier::spinoff_prover]
pub fn finalize_layered_bitmap(
    pixels: &mut Vec<u32>,
    panel_pixels: &Vec<u32>,
    width: i32,
    height: i32,
    style: &ThemeStyle,
    dpi: u32,
)
    requires
        dpi <= MAX_LAYOUT_DPI,
        panel_colors_readable(style),
        bitmap_fits(old(pixels)@.len() as int, width as int, height as int),
        width * height <= panel_pixels@.len(),
    ensures
        final(pixels)@.len() == old(pixels)@.len(),
        forall|i: int|
            0 <= i < final(pixels)@.len() ==> #[trigger] final(pixels)@[i] == if i < width * height {
                layered_pixel(*style, old(pixels)@[i], panel_pixels@[i], width as int, height as int, i, dpi as int)
            } else {
                old(pixels)@[i] as int
            },
{
    let total: i32 = width * height;
    let mut idx: i32 = 0;
    while idx < total
        invariant
            0 <= idx <= total,
            total == width * height,
            dpi <= MAX_LAYOUT_DPI,
            panel_colors_readable(style),
            bitmap_fits(old(pixels)@.len() as int, width as int, height as int),
            width * height <= panel_pixels@.len(),
            pixels@.len() == old(pixels)@.len(),
            forall|i: int|
                0 <= i < pixels@.len() ==> #[trigger] pixels@[i] == if i < idx {
                    match style_panel_color(*style, width as int, height as int, i % width as int, i / width as int, dpi as int) {
                        None => 0,
                        Some(c) => if old(pixels)@[i] != panel_pixels@[i] {
                            old(pixels)@[i] as int % 16777216 + 0xFF000000
                        } else {
                            premultiplied(c)
                        },
                    }
                } else {
                    old(pixels)@[i] as int
                },
        decreases total - idx,
    {
        proof {
            lemma_index_coordinates(idx as int, width as int, height as int);
        }
        let y = idx / width;
        let x = idx % width;
        let u = idx as usize;
        match panel_color_at(style, width, height, x, y, dpi) {
            None => {
                pixels.set(u, 0);
            },
            Some(color) => {
                let current = pixels[u];
                if current != panel_pixels[u] {
                    pixels.set(u, current % 16777216 + 0xFF000000);
                } else {
                    pixels.set(u, premultiplied_pixel(color));
                }
            },
        }
        idx = idx + 1;
    }
}

/// The smallest alpha that keeps a layered pixel receiving the mouse.
pub const MIN_INTERACTIVE_ALPHA: u8 = 1;

/// A colour setting's text made just opaque enough to receive the mouse.
pub open spec fn interactive_text(c: Color) -> Seq<char> {
    hex_rgba_text(Color { a: 1, ..c })
}

/// The style the layered surface is drawn with: while composition blur
/// shows the background, or where the background is fully transparent, the
/// background is given the least alpha that keeps it receiving the mouse; a
/// fully transparent border likewise. Everything else is `style`.
pub open spec fn surface_style(style: StyleView, composition_blur_active: bool) -> StyleView {
    let bg = color_of_text(color_text(style, StyleColorTarget::PanelBackground));
    let border = color_of_text(color_text(style, StyleColorTarget::PanelBorder));
    let s1 = if composition_blur_active || bg.a == 0 {
        with_color_text(style, StyleColorTarget::PanelBackground, interactive_text(bg))
    } else {
        style
    };
    if border.a == 0 {
        with_color_text(s1, StyleColorTarget::PanelBorder, interactive_text(border))
    } else {
        s1
    }
}

/// The style of the layered surface for `style`.
pub fn layered_surface_style(style: &ThemeStyle, composition_blur_active: bool) -> (s: ThemeStyle)
    requires
        panel_colors_readable(style),
    ensures
        s@ == surface_style(style@, composition_blur_active),
        !hex_cut_panics(color_text(s@, StyleColorTarget::PanelBackground)),
        !hex_cut_panics(color_text(s@, StyleColorTarget::PanelBorder)),
        composition_blur_active ==> color_of_text(color_text(s@, StyleColorTarget::PanelBackground)).a
            == MIN_INTERACTIVE_ALPHA,
        color_of_text(color_text(s@, StyleColorTarget::PanelBackground)).a >= MIN_INTERACTIVE_ALPHA,
        color_of_text(color_text(s@, StyleColorTarget::PanelBorder)).a >= MIN_INTERACTIVE_ALPHA,
{
    let background = style.color(StyleColorTarget::PanelBackground);
    let border = style.color(StyleColorTarget::PanelBorder);
    let panel_background = if composition_blur_active || background.a == 0 {
        Color::rgba(background.r, background.g, background.b, MIN_INTERACTIVE_ALPHA).to_hex_rgba()
    } else {
        style.panel_background.clone()
    };
    let panel_border = if border.a == 0 {
        Color::rgba(border.r, border.g, border.b, MIN_INTERACTIVE_ALPHA).to_hex_rgba()
    } else {
        style.panel_border.clone()
    };
    proof {
        lemma_hex_rgba_round_trip(Color { a: 1, ..background });
        lemma_hex_rgba_round_trip(Color { a: 1, ..border });
    }
    ThemeStyle {
        panel_background,
        panel_border,
        panel_blur_radius: style.panel_blur_radius,
        panel_frosted_strength: style.panel_frosted_strength,
        quota_type: style.quota_type.clone(),
        remaining: style.remaining.clone(),
        reset_time: style.reset_time.clone(),
        error: style.error.clone(),
        progress_high: style.progress_high.clone(),
        progress_medium: style.progress_medium.clone(),
        progress_low: style.progress_low.clone(),
        progress_consumed: style.progress_consumed.clone(),
        drag_handle: style.drag_handle.clone(),
    }
}

/// The alpha byte of a `0xAARRGGBB` pixel.
pub open spec fn pixel_alpha(pixel: int) -> int {
    pixel / 16777216
}

proof fn lemma_premultiplied_alpha(c: Color)
    ensures
        pixel_alpha(premultiplied(c)) == c.a,
{
    let a = c.a as int;
    if a > 0 {
        let r = (c.r as int * a + 127) / 255;
        let g = (c.g as int * a + 127) / 255;
        let b = (c.b as int * a + 127) / 255;
        assert(0 <= r <= 255 && 0 <= g <= 255 && 0 <= b <= 255) by (nonlinear_arith)
            requires
                0 <= c.r <= 255,
                0 <= c.g <= 255,
                0 <= c.b <= 255,
                1 <= a <= 255,
                r == (c.r as int * a + 127) / 255,
                g == (c.g as int * a + 127) / 255,
                b == (c.b as int * a + 127) / 255,
        ;
        assert(0 <= rgb_pixel(r, g, b) < 16777216);
        assert((a * 16777216 + rgb_pixel(r, g, b)) / 16777216 == a) by (nonlinear_arith)
            requires
                0 <= rgb_pixel(r, g, b) < 16777216,
        ;
    }
}

/// Law: in the layered window drawn with the surface style of any theme
/// style (with or without composition blur), every pixel off the panel is
/// transparent, every panel pixel has at least the alpha that keeps it
/// receiving the mouse, and every pixel where content was drawn is opaque.
pub proof fn lemma_layered_alpha(
    style: ThemeStyle,
    surface: ThemeStyle,
    composition_blur_active: bool,
    drawn: u32,
    panel: u32,
    width: int,
    height: int,
    i: int,
    dpi: int,
)
    requires
        surface@ == surface_style(style@, composition_blur_active),
        width > 0,
        0 <= i < width * height,
    ensures
        ({
            let x = i % width;
            let y = i / width;
            let outer = outer_inset(dpi);
            let p = layered_pixel(surface, drawn, panel, width, height, i, dpi);
            &&& (x < outer || x >= width - outer || y < outer || y >= height - outer) ==> p == 0
            &&& !(x < outer || x >= width - outer || y < outer || y >= height - outer) ==> pixel_alpha(p)
                >= MIN_INTERACTIVE_ALPHA
            &&& !(x < outer || x >= width - outer || y < outer || y >= height - outer) && drawn
                != panel ==> pixel_alpha(p) == 255
        }),
{
    let bg = color_of_text(color_text(style@, StyleColorTarget::PanelBackground));
    let border = color_of_text(color_text(style@, StyleColorTarget::PanelBorder));
    lemma_hex_rgba_round_trip(Color { a: 1, ..bg });
    lemma_hex_rgba_round_trip(Color { a: 1, ..border });
    let sbg = color_of_text(color_text(surface@, StyleColorTarget::PanelBackground));
    let sborder = color_of_text(color_text(surface@, StyleColorTarget::PanelBorder));
    assert(sbg.a >= 1);
    assert(sborder.a >= 1);
    lemma_premultiplied_alpha(sbg);
    lemma_premultiplied_alpha(sborder);
    let d = drawn as int % 16777216;
    assert((d + 0xFF000000) / 16777216 == 255);
}

/// Law: the bitmap handed to the layered window is transparent off the
/// panel, at least just visible to the mouse everywhere on the panel, and
/// opaque wherever content was drawn. `surface` is what
/// `layered_surface_style` gives for `style` (with or without composition
/// blur, whatever alpha the panel colours have), and `out` is what
/// `finalize_layered_bitmap` makes of the drawn pixels `drawn` over the bare
/// panel pixels `panel`.
pub proof fn lemma_layered_bitmap_alpha(
    style: ThemeStyle,
    surface: ThemeStyle,
    composition_blur_active: bool,
    drawn: Seq<u32>,
    panel: Seq<u32>,
    out: Seq<u32>,
    width: int,
    height: int,
    dpi: int,
)
    requires
        surface@ == surface_style(style@, composition_blur_active),
        width > 0,
        width * height <= drawn.len(),
        width * height <= panel.len(),
        out.len() == drawn.len(),
        forall|i: int|
            0 <= i < width * height ==> #[trigger] out[i] == layered_pixel(
                surface,
                drawn[i],
                panel[i],
                width,
                height,
                i,
                dpi,
            ),
    ensures
        forall|i: int|
            #![trigger out[i]]
            0 <= i < width * height ==> ({
                let x = i % width;
                let y = i / width;
                let outer = outer_inset(dpi);
                let off_panel = x < outer || x >= width - outer || y < outer || y >= height - outer;
                &&& off_panel ==> out[i] == 0
                &&& !off_panel ==> pixel_alpha(out[i] as int) >= MIN_INTERACTIVE_ALPHA
                &&& !off_panel && drawn[i] != panel[i] ==> pixel_alpha(out[i] as int) == 255
            }),
{
    assert forall|i: int|
        #![trigger out[i]]
        0 <= i < width * height implies ({
            let x = i % width;
            let y = i / width;
            let outer = outer_inset(dpi);
            let off_panel = x < outer || x >= width - outer || y < outer || y >= height - outer;
            &&& off_panel ==> out[i] == 0
            &&& !off_panel ==> pixel_alpha(out[i] as int) >= MIN_INTERACTIVE_ALPHA
            &&& !off_panel && drawn[i] != panel[i] ==> pixel_alpha(out[i] as int) == 255
        }) by {
        lemma_layered_alpha(style, surface, composition_blur_active, drawn[i], panel[i], width, height, i, dpi);
    }
}

} // verus!
