use codex_usage_win::color::Color;
use codex_usage_win::panel::{
    layered_surface_style, blend_panel_bitmap, blend_pixel, fill_bitmap, finalize_layered_bitmap, panel_color_at,
    premultiplied_pixel, rgb_value,
};
use codex_usage_win::style::{StyleColorTarget, ThemeStyle};

#[test]
fn blending_keeps_replaces_or_mixes() {
    let c = Color::rgba(200, 100, 0, 0);
    assert_eq!(blend_pixel(0xAA11_2233, c), 0x0011_2233);
    let c = Color::rgba(200, 100, 0, 255);
    assert_eq!(blend_pixel(0x0011_2233, c), 0x00C8_6400);
    let c = Color::rgba(255, 0, 0, 128);
    let expected_r = (255 * 128 + 0 * 127 + 127) / 255;
    let expected_b = (0 * 128 + 255 * 127 + 127) / 255;
    assert_eq!(blend_pixel(0x0000_00FF, c), (expected_r << 16) | expected_b);
}

#[test]
fn premultiplied_pixels_scale_channels_by_alpha() {
    assert_eq!(premultiplied_pixel(Color::rgba(255, 255, 255, 0)), 0);
    assert_eq!(premultiplied_pixel(Color::rgba(255, 128, 0, 255)), 0xFFFF_8000);
    assert_eq!(premultiplied_pixel(Color::rgba(255, 255, 255, 128)), 0x8080_8080);
    assert_eq!(rgb_value(Color::rgba(1, 2, 3, 4)), 0x0001_0203);
}

#[test]
fn panel_has_a_border_ring_inside_a_transparent_margin() {
    let style = ThemeStyle::dark_default();
    let fill = style.color(StyleColorTarget::PanelBackground);
    let border = style.color(StyleColorTarget::PanelBorder);
    assert_eq!(panel_color_at(&style, 10, 6, 0, 0, 96), None);
    assert_eq!(panel_color_at(&style, 10, 6, 1, 1, 96), Some(border));
    assert_eq!(panel_color_at(&style, 10, 6, 2, 2, 96), Some(fill));
    assert_eq!(panel_color_at(&style, 10, 6, 9, 3, 96), None);
    assert_eq!(panel_color_at(&style, 10, 6, 8, 3, 96), Some(border));
}

#[test]
fn panel_passes_touch_only_the_panel() {
    let style = ThemeStyle::dark_default();
    let mut pixels = vec![0u32; 10 * 6];
    fill_bitmap(&mut pixels, Color::rgba(0, 0, 0, 255));
    assert!(pixels.iter().all(|p| *p == 0));
    blend_panel_bitmap(&mut pixels, 10, 6, &style, 96);
    assert_eq!(pixels[0], 0);
    assert_eq!(pixels[2 * 10 + 2], 0x0024_2A31);
    let panel = pixels.clone();
    let mut drawn = pixels.clone();
    drawn[2 * 10 + 3] = 0x00FF_FFFF;
    finalize_layered_bitmap(&mut drawn, &panel, 10, 6, &style, 96);
    assert_eq!(drawn[0], 0);
    assert_eq!(drawn[2 * 10 + 3], 0xFFFF_FFFF);
    assert_eq!(drawn[2 * 10 + 2], 0xFF24_2A31);
}

#[test]
fn transparent_panels_stay_interactive() {
    let mut style = ThemeStyle::dark_default();
    let same = layered_surface_style(&style, false);
    assert_eq!(same.panel_background, style.panel_background);
    assert_eq!(same.panel_border, style.panel_border);
    let blurred = layered_surface_style(&style, true);
    assert_eq!(blurred.panel_background, "#242A3101");
    style.set_color(StyleColorTarget::PanelBackground, Color::rgba(1, 2, 3, 0));
    style.set_color(StyleColorTarget::PanelBorder, Color::rgba(4, 5, 6, 0));
    let lifted = layered_surface_style(&style, false);
    assert_eq!(lifted.panel_background, "#01020301");
    assert_eq!(lifted.panel_border, "#04050601");
    assert_eq!(lifted.quota_type, style.quota_type);
}

#[test]
fn layered_pixels_are_clear_outside_and_interactive_inside() {
    let mut style = ThemeStyle::dark_default();
    style.set_color(StyleColorTarget::PanelBackground, Color::rgba(10, 20, 30, 0));
    style.set_color(StyleColorTarget::PanelBorder, Color::rgba(40, 50, 60, 0));
    let surface = layered_surface_style(&style, true);
    let mut pixels = vec![0u32; 10 * 6];
    blend_panel_bitmap(&mut pixels, 10, 6, &surface, 96);
    let panel = pixels.clone();
    let mut drawn = pixels.clone();
    drawn[3 * 10 + 4] = 0x0012_3456;
    finalize_layered_bitmap(&mut drawn, &panel, 10, 6, &surface, 96);
    for y in 0..6 {
        for x in 0..10 {
            let alpha = drawn[y * 10 + x] >> 24;
            if x < 1 || x >= 9 || y < 1 || y >= 5 {
                assert_eq!(drawn[y * 10 + x], 0);
            } else {
                assert!(alpha >= 1);
            }
        }
    }
    assert_eq!(drawn[3 * 10 + 4], 0xFF12_3456);
}
