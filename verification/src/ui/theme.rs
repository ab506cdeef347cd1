//! The application's single dark theme: colours, type, spacing and icons.

use vstd::prelude::*;

verus! {

#[derive(Clone, Copy, Debug, PartialEq, Eq, Structural)]
pub enum ThemeMode {
    DarkOnly,
}

#[derive(Clone, Copy, Debug)]
pub struct ThemePalette {
    pub background: &'static str,
    pub background_elevated: &'static str,
    pub panel: &'static str,
    pub panel_border: &'static str,
    pub text_primary: &'static str,
    pub text_secondary: &'static str,
    pub text_muted: &'static str,
    pub accent: &'static str,
    pub accent_soft: &'static str,
    pub success: &'static str,
    pub warning: &'static str,
    pub danger: &'static str,
}

#[derive(Clone, Copy, Debug)]
pub struct ThemeTypography {
    pub family_heading: &'static str,
    pub family_body: &'static str,
    pub size_xs: u8,
    pub size_sm: u8,
    pub size_md: u8,
    pub size_lg: u8,
    pub size_xl: u8,
    pub weight_regular: u16,
    pub weight_semibold: u16,
    pub weight_bold: u16,
}

#[derive(Clone, Copy, Debug)]
pub struct ThemeSpacing {
    pub xs: u8,
    pub sm: u8,
    pub md: u8,
    pub lg: u8,
    pub xl: u8,
}

#[derive(Clone, Copy, Debug)]
pub struct ThemeIcons {
    pub library: &'static str,
    pub vault: &'static str,
    pub settings: &'static str,
    pub about: &'static str,
    pub warning: &'static str,
    pub success: &'static str,
}

#[derive(Clone, Copy, Debug)]
pub struct AppTheme {
    pub mode: ThemeMode,
    pub palette: ThemePalette,
    pub typography: ThemeTypography,
    pub spacing: ThemeSpacing,
    pub icons: ThemeIcons,
}

/// The dark palette's colours.
pub open spec fn is_dark_palette(p: ThemePalette) -> bool {
    &&& p.background@ == "#0b0f14"@
    &&& p.background_elevated@ == "#0f1620"@
    &&& p.panel@ == "#111821"@
    &&& p.panel_border@ == "#223244"@
    &&& p.text_primary@ == "#d7e2f0"@
    &&& p.text_secondary@ == "#aab8cb"@
    &&& p.text_muted@ == "#7e8da1"@
    &&& p.accent@ == "#39d98a"@
    &&& p.accent_soft@ == "#1c7f55"@
    &&& p.success@ == "#1dd1a1"@
    &&& p.warning@ == "#f6b93b"@
    &&& p.danger@ == "#ff6b6b"@
}

/// The dark theme's type scale.
pub open spec fn is_dark_typography(p: ThemeTypography) -> bool {
    &&& p.family_heading@ == "Rajdhani"@
    &&& p.family_body@ == "Inter"@
    &&& p.size_xs == 11
    &&& p.size_sm == 13
    &&& p.size_md == 15
    &&& p.size_lg == 18
    &&& p.size_xl == 22
    &&& p.weight_regular == 400
    &&& p.weight_semibold == 600
    &&& p.weight_bold == 700
}

/// The dark theme's spacing scale.
pub open spec fn is_dark_spacing(p: ThemeSpacing) -> bool {
    &&& p.xs == 4
    &&& p.sm == 8
    &&& p.md == 12
    &&& p.lg == 16
    &&& p.xl == 24
}

/// The dark theme's icon names.
pub open spec fn is_dark_icons(p: ThemeIcons) -> bool {
    &&& p.library@ == "icon-library"@
    &&& p.vault@ == "icon-vault"@
    &&& p.settings@ == "icon-settings"@
    &&& p.about@ == "icon-about"@
    &&& p.warning@ == "icon-warning"@
    &&& p.success@ == "icon-success"@
}

/// The palette of the dark theme.
pub fn dark_hacker_palette() -> (p: ThemePalette)
    ensures
        is_dark_palette(p),
{
    ThemePalette {
        background: "#0b0f14",
        background_elevated: "#0f1620",
        panel: "#111821",
        panel_border: "#223244",
        text_primary: "#d7e2f0",
        text_secondary: "#aab8cb",
        text_muted: "#7e8da1",
        accent: "#39d98a",
        accent_soft: "#1c7f55",
        success: "#1dd1a1",
        warning: "#f6b93b",
        danger: "#ff6b6b",
    }
}

/// The typography of the dark theme.
pub fn dark_hacker_typography() -> (p: ThemeTypography)
    ensures
        is_dark_typography(p),
{
    ThemeTypography {
        family_heading: "Rajdhani",
        family_body: "Inter",
        size_xs: 11,
        size_sm: 13,
        size_md: 15,
        size_lg: 18,
        size_xl: 22,
        weight_regular: 400,
        weight_semibold: 600,
        weight_bold: 700,
    }
}

/// The spacing of the dark theme.
pub fn dark_hacker_spacing() -> (p: ThemeSpacing)
    ensures
        is_dark_spacing(p),
{
    ThemeSpacing {
        xs: 4,
        sm: 8,
        md: 12,
        lg: 16,
        xl: 24,
    }
}

/// The icons of the dark theme.
pub fn dark_hacker_icons() -> (p: ThemeIcons)
    ensures
        is_dark_icons(p),
{
    ThemeIcons {
        library: "icon-library",
        vault: "icon-vault",
        settings: "icon-settings",
        about: "icon-about",
        warning: "icon-warning",
        success: "icon-success",
    }
}

/// The application's theme: dark only, with the dark palette, type, spacing and icons.
pub fn dark_hacker_theme() -> (t: AppTheme)
    ensures
        t.mode == ThemeMode::DarkOnly,
        is_dark_palette(t.palette),
        is_dark_typography(t.typography),
        is_dark_spacing(t.spacing),
        is_dark_icons(t.icons),
{
    AppTheme {
        mode: ThemeMode::DarkOnly,
        palette: dark_hacker_palette(),
        typography: dark_hacker_typography(),
        spacing: dark_hacker_spacing(),
        icons: dark_hacker_icons(),
    }
}

} // verus!
