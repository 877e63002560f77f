use bge_embed_rs::theme::{
    dark, hex, light, nav_tab_style, palette_for, toggle_style, Rgb, ThemeMode, Weight, RADIUS_CARD,
    RADIUS_CONTROL, RADIUS_FULL,
};

fn from_rgb(r: u8, g: u8, b: u8) -> Rgb {
    Rgb { r, g, b }
}

#[test]
fn both_themes_define_every_token() {
    let (light, dark) = (light(), dark());
    assert_ne!(light.bg_window, dark.bg_window);
    assert_ne!(light.bg_surface, dark.bg_surface);
    assert_ne!(light.border, dark.border);
    assert_ne!(light.text, dark.text);
    assert_ne!(light.text_muted, dark.text_muted);
    assert_ne!(light.accent, dark.accent);
    assert_ne!(light.success, dark.success);
    assert_ne!(light.warning, dark.warning);
    assert_ne!(light.error, dark.error);
}

#[test]
fn hex_matches_design_doc() {
    assert_eq!(light().bg_window, from_rgb(0xF7, 0xF8, 0xFA));
    assert_eq!(dark().accent, from_rgb(0x5A, 0xA2, 0xF5));
    assert_eq!(light().error, from_rgb(0xB4, 0x23, 0x18));
}

#[test]
fn full_radius_clamps_to_a_pill() {
    assert_eq!(RADIUS_FULL, 255);
}

#[test]
fn hex_splits_bytes() {
    assert_eq!(hex(0x123456), from_rgb(0x12, 0x34, 0x56));
    assert_eq!(hex(0xFF00FF80), from_rgb(0x00, 0xFF, 0x80));
}

#[test]
fn radii() {
    assert_eq!(RADIUS_CONTROL, 4);
    assert_eq!(RADIUS_CARD, 8);
}

#[test]
fn palette_follows_theme() {
    assert_eq!(palette_for(ThemeMode::Light), light());
    assert_eq!(palette_for(ThemeMode::Dark), dark());
}

#[test]
fn font_families() {
    assert_eq!(Weight::Regular.family_name(), "Inter-Regular");
    assert_eq!(Weight::Medium.family_name(), "Inter-Medium");
    assert_eq!(Weight::SemiBold.family_name(), "Inter-SemiBold");
}

#[test]
fn nav_tab_and_toggle_styles() {
    let p = light();
    let active = nav_tab_style(&p, true);
    assert_eq!((active.weight, active.text, active.fill), (Weight::SemiBold, p.accent_on, Some(p.accent)));
    let inactive = nav_tab_style(&p, false);
    assert_eq!((inactive.weight, inactive.text, inactive.fill), (Weight::Medium, p.text_muted, None));
    let on = toggle_style(&p, true);
    assert_eq!((on.track, on.knob, on.knob_right), (p.accent, p.bg_surface, true));
    let off = toggle_style(&p, false);
    assert_eq!((off.track, off.knob, off.knob_right), (p.text_muted, p.bg_surface, false));
}
