//! Design tokens of the window: colours per theme, radii, font faces, and
//! the few style rules that depend on a widget's state.

use vstd::prelude::*;

verus! {

pub const RADIUS_CONTROL: u8 = 4;

pub const RADIUS_CARD: u8 = 8;

/// Larger than any control this app draws; a corner radius is clamped to
/// half the shape's shortest side, so this always renders as a full
/// pill or circle.
pub const RADIUS_FULL: u8 = 255;

/// An sRGB colour.
#[derive(Debug, Clone, Copy, PartialEq, Eq, Structural)]
pub struct Rgb {
    pub r: u8,
    pub g: u8,
    pub b: u8,
}

pub open spec fn rgb(r: u8, g: u8, b: u8) -> Rgb {
    Rgb { r, g, b }
}

/// The colour written `#RRGGBB` as the number `0xRRGGBB`.
pub fn hex(v: u32) -> (c: Rgb)
    ensures
        c.r == (v >> 16) & 0xFF,
        c.g == (v >> 8) & 0xFF,
        c.b == v & 0xFF,
{
    let r = ((v >> 16) & 0xFF) as u8;
    let g = ((v >> 8) & 0xFF) as u8;
    let b = (v & 0xFF) as u8;
    assert(((v >> 16) & 0xFF) < 256 && ((v >> 8) & 0xFF) < 256 && (v & 0xFF) < 256) by (bit_vector);
    Rgb { r, g, b }
}

/// `hex(v)` for a literal: the three bytes of `v`.
fn color(v: u32, r: u8, g: u8, b: u8) -> (c: Rgb)
    requires
        v == (r as u32) * 0x10000 + (g as u32) * 0x100 + (b as u32),
    ensures
        c == rgb(r, g, b),
{
    let c = hex(v);
    assert(((v >> 16) & 0xFF) == r && ((v >> 8) & 0xFF) == g && (v & 0xFF) == b) by (bit_vector)
        requires
            v == (r as u32) * 0x10000 + (g as u32) * 0x100 + (b as u32),
    ;
    c
}

/// The semantic colours of one theme.
#[derive(Debug, Clone, Copy, PartialEq, Eq, Structural)]
pub struct Palette {
    pub bg_window: Rgb,
    pub bg_surface: Rgb,
    pub border: Rgb,
    pub text: Rgb,
    pub text_muted: Rgb,
    pub accent: Rgb,
    pub accent_on: Rgb,
    pub success: Rgb,
    pub warning: Rgb,
    pub error: Rgb,
}

pub open spec fn spec_light() -> Palette {
    Palette {
        bg_window: rgb(0xF7, 0xF8, 0xFA),
        bg_surface: rgb(0xFF, 0xFF, 0xFF),
        border: rgb(0xDC, 0xE0, 0xE6),
        text: rgb(0x17, 0x1A, 0x1F),
        text_muted: rgb(0x5B, 0x64, 0x72),
        accent: rgb(0x1F, 0x6F, 0xD1),
        accent_on: rgb(0xFF, 0xFF, 0xFF),
        success: rgb(0x15, 0x80, 0x3D),
        warning: rgb(0x92, 0x60, 0x0E),
        error: rgb(0xB4, 0x23, 0x18),
    }
}

pub open spec fn spec_dark() -> Palette {
    Palette {
        bg_window: rgb(0x17, 0x1A, 0x1F),
        bg_surface: rgb(0x26, 0x2B, 0x33),
        border: rgb(0x3F, 0x46, 0x52),
        text: rgb(0xF7, 0xF8, 0xFA),
        text_muted: rgb(0x9A, 0xA3, 0xAF),
        accent: rgb(0x5A, 0xA2, 0xF5),
        accent_on: rgb(0x0F, 0x11, 0x15),
        success: rgb(0x3C, 0xC4, 0x7C),
        warning: rgb(0xE0, 0xA4, 0x3A),
        error: rgb(0xF0, 0x6A, 0x62),
    }
}

/// The light theme.
pub fn light() -> (p: Palette)
    ensures
        p == spec_light(),
{
    Palette {
        bg_window: color(0xF7F8FA, 0xF7, 0xF8, 0xFA),
        bg_surface: color(0xFFFFFF, 0xFF, 0xFF, 0xFF),
        border: color(0xDCE0E6, 0xDC, 0xE0, 0xE6),
        text: color(0x171A1F, 0x17, 0x1A, 0x1F),
        text_muted: color(0x5B6472, 0x5B, 0x64, 0x72),
        accent: color(0x1F6FD1, 0x1F, 0x6F, 0xD1),
        accent_on: color(0xFFFFFF, 0xFF, 0xFF, 0xFF),
        success: color(0x15803D, 0x15, 0x80, 0x3D),
        warning: color(0x92600E, 0x92, 0x60, 0x0E),
        error: color(0xB42318, 0xB4, 0x23, 0x18),
    }
}

/// The dark theme.
pub fn dark() -> (p: Palette)
    ensures
        p == spec_dark(),
{
    Palette {
        bg_window: color(0x171A1F, 0x17, 0x1A, 0x1F),
        bg_surface: color(0x262B33, 0x26, 0x2B, 0x33),
        border: color(0x3F4652, 0x3F, 0x46, 0x52),
        text: color(0xF7F8FA, 0xF7, 0xF8, 0xFA),
        text_muted: color(0x9AA3AF, 0x9A, 0xA3, 0xAF),
        accent: color(0x5AA2F5, 0x5A, 0xA2, 0xF5),
        accent_on: color(0x0F1115, 0x0F, 0x11, 0x15),
        success: color(0x3CC47C, 0x3C, 0xC4, 0x7C),
        warning: color(0xE0A43A, 0xE0, 0xA4, 0x3A),
        error: color(0xF06A62, 0xF0, 0x6A, 0x62),
    }
}

/// The theme the window follows.
#[derive(Debug, Clone, Copy, PartialEq, Eq, Structural)]
pub enum ThemeMode {
    Light,
    Dark,
}

/// The palette of the active theme.
pub fn palette_for(mode: ThemeMode) -> (p: Palette)
    ensures
        p == match mode {
            ThemeMode::Light => spec_light(),
            ThemeMode::Dark => spec_dark(),
        },
{
    match mode {
        ThemeMode::Light => light(),
        ThemeMode::Dark => dark(),
    }
}

/// Font weights in use: 400, 500, 600.
#[derive(Debug, Clone, Copy, PartialEq, Eq, Structural)]
pub enum Weight {
    Regular,
    Medium,
    SemiBold,
}

pub open spec fn spec_family_name(w: Weight) -> Seq<char> {
    match w {
        Weight::Regular => "Inter-Regular"@,
        Weight::Medium => "Inter-Medium"@,
        Weight::SemiBold => "Inter-SemiBold"@,
    }
}

impl Weight {
    /// The name of the embedded Inter face of this weight.
    pub fn family_name(self) -> (r: &'static str)
        ensures
            r@ == spec_family_name(self),
    {
        match self {
            Weight::Regular => "Inter-Regular",
            Weight::Medium => "Inter-Medium",
            Weight::SemiBold => "Inter-SemiBold",
        }
    }
}

/// How a bottom-bar tab is drawn.
#[derive(Debug, Clone, Copy, PartialEq, Eq, Structural)]
pub struct TabStyle {
    pub weight: Weight,
    pub text: Rgb,
    /// `None`: no background.
    pub fill: Option<Rgb>,
}

/// Active tab: accent background, `accent_on` label, weight 600; inactive:
/// no background, muted label, weight 500.
pub fn nav_tab_style(p: &Palette, active: bool) -> (s: TabStyle)
    ensures
        active ==> s == (TabStyle { weight: Weight::SemiBold, text: p.accent_on, fill: Some(p.accent) }),
        !active ==> s == (TabStyle { weight: Weight::Medium, text: p.text_muted, fill: None }),
{
    if active {
        TabStyle { weight: Weight::SemiBold, text: p.accent_on, fill: Some(p.accent) }
    } else {
        TabStyle { weight: Weight::Medium, text: p.text_muted, fill: None }
    }
}

/// How a toggle switch is drawn: its track colour and whether the knob sits
/// on the right.
#[derive(Debug, Clone, Copy, PartialEq, Eq, Structural)]
pub struct ToggleStyle {
    pub track: Rgb,
    pub knob: Rgb,
    pub knob_right: bool,
}

/// Track accent when on, muted when off; knob in the surface colour, on the
/// right when on and on the left when off.
pub fn toggle_style(p: &Palette, on: bool) -> (s: ToggleStyle)
    ensures
        s.track == (if on { p.accent } else { p.text_muted }),
        s.knob == p.bg_surface,
        s.knob_right == on,
{
    ToggleStyle { track: if on { p.accent } else { p.text_muted }, knob: p.bg_surface, knob_right: on }
}

} // verus!
