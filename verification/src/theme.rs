//! The color palettes, and the one that is in use.
use crate::system_colors;
use crate::system_colors::{Rgba, SystemColors, ThemeColor};
use vstd::prelude::*;

verus! {

/// The color palettes.
#[derive(Debug, Clone, Copy, PartialEq, Eq, Structural)]
pub enum ThemeName {
    AyuLight,
    AyuDark,
    AyuMirage,
}

impl Default for ThemeName {
    fn default() -> (name: Self)
        ensures
            name == ThemeName::AyuLight,
    {
        ThemeName::AyuLight
    }
}

/// The resolved color palette for a single theme.
#[derive(Debug, Clone, Copy, PartialEq, Eq, Structural)]
pub struct ThemeColors {
    pub bg: Rgba,
    pub panel: Rgba,
    pub sidebar: Rgba,
    pub panel_alt: Rgba,
    pub code_block_bg: Rgba,
    pub border: Rgba,
    pub text: Rgba,
    pub muted: Rgba,
    pub accent: Rgba,
    pub selection_bg: Rgba,
    pub is_dark: bool,
}

/// The opaque color `0xRRGGBB`.
pub open spec fn opaque(hex: int) -> Rgba {
    Rgba { hex: (hex % 0x100_0000 * 0x100 + 0xff) as u32 }
}

/// The opaque color `0xRRGGBB`; digits above those six do not count.
pub fn rgb(hex: u32) -> (color: Rgba)
    ensures
        color == opaque(hex as int),
{
    Rgba { hex: hex % 0x100_0000 * 0x100 + 0xff }
}

/// The color `0xRRGGBBAA`.
pub fn rgba(hex: u32) -> (color: Rgba)
    ensures
        color == (Rgba { hex }),
{
    Rgba { hex }
}

impl ThemeName {
    /// The label of the theme.
    pub open spec fn label_spec(self) -> Seq<char> {
        match self {
            ThemeName::AyuLight => "Ayu Light"@,
            ThemeName::AyuDark => "Ayu Dark"@,
            ThemeName::AyuMirage => "Ayu Mirage"@,
        }
    }

    /// The palette of the theme.
    pub open spec fn palette(self) -> ThemeColors {
        match self {
            ThemeName::AyuLight => ThemeColors {
                bg: opaque(0xfafafa),
                panel: opaque(0xffffff),
                sidebar: opaque(0xf8f8f8),
                panel_alt: opaque(0xf0f0f0),
                code_block_bg: opaque(0xf0f0f0),
                border: opaque(0xe7e7e7),
                text: opaque(0x5c6773),
                muted: opaque(0xabb0b6),
                accent: opaque(0xff9940),
                selection_bg: Rgba { hex: 0xff994033 },
                is_dark: false,
            },
            ThemeName::AyuDark => ThemeColors {
                bg: opaque(0x0b0e14),
                panel: opaque(0x131721),
                sidebar: opaque(0x0e1118),
                panel_alt: opaque(0x1a2029),
                code_block_bg: opaque(0x171b24),
                border: opaque(0x22252e),
                text: opaque(0xbfbdb6),
                muted: opaque(0x565b66),
                accent: opaque(0xe6b450),
                selection_bg: Rgba { hex: 0xe6b45033 },
                is_dark: true,
            },
            ThemeName::AyuMirage => ThemeColors {
                bg: opaque(0x1f2430),
                panel: opaque(0x262b38),
                sidebar: opaque(0x232835),
                panel_alt: opaque(0x2e3442),
                code_block_bg: opaque(0x252b38),
                border: opaque(0x2b3346),
                text: opaque(0xcbccc6),
                muted: opaque(0x707a8c),
                accent: opaque(0xffcc66),
                selection_bg: Rgba { hex: 0xffcc6633 },
                is_dark: true,
            },
        }
    }

    /// Returns the human-readable label used in menus.
    pub fn label(self) -> (label: &'static str)
        ensures
            label@ == self.label_spec(),
    {
        match self {
            ThemeName::AyuLight => "Ayu Light",
            ThemeName::AyuDark => "Ayu Dark",
            ThemeName::AyuMirage => "Ayu Mirage",
        }
    }

    /// Whether this theme is a dark theme.
    pub fn is_dark(self) -> (dark: bool)
        ensures
            dark == self.palette().is_dark,
    {
        self.colors().is_dark
    }

    /// Resolves the concrete color palette for this theme.
    pub fn colors(self) -> (colors: ThemeColors)
        ensures
            colors == self.palette(),
    {
        match self {
            ThemeName::AyuLight => ThemeColors {
                bg: rgb(0xfafafa),
                panel: rgb(0xffffff),
                sidebar: rgb(0xf8f8f8),
                panel_alt: rgb(0xf0f0f0),
                code_block_bg: rgb(0xf0f0f0),
                border: rgb(0xe7e7e7),
                text: rgb(0x5c6773),
                muted: rgb(0xabb0b6),
                accent: rgb(0xff9940),
                selection_bg: rgba(0xff994033),
                is_dark: false,
            },
            ThemeName::AyuDark => ThemeColors {
                bg: rgb(0x0b0e14),
                panel: rgb(0x131721),
                sidebar: rgb(0x0e1118),
                panel_alt: rgb(0x1a2029),
                code_block_bg: rgb(0x171b24),
                border: rgb(0x22252e),
                text: rgb(0xbfbdb6),
                muted: rgb(0x565b66),
                accent: rgb(0xe6b450),
                selection_bg: rgba(0xe6b45033),
                is_dark: true,
            },
            ThemeName::AyuMirage => ThemeColors {
                bg: rgb(0x1f2430),
                panel: rgb(0x262b38),
                sidebar: rgb(0x232835),
                panel_alt: rgb(0x2e3442),
                code_block_bg: rgb(0x252b38),
                border: rgb(0x2b3346),
                text: rgb(0xcbccc6),
                muted: rgb(0x707a8c),
                accent: rgb(0xffcc66),
                selection_bg: rgba(0xffcc6633),
                is_dark: true,
            },
        }
    }
}

/// Shared Markdown colors used by both the inline editor and rendered preview.
#[derive(Debug, Clone, Copy)]
pub struct MarkdownStyle<C> {
    pub foreground: Rgba,
    pub muted_foreground: Rgba,
    pub background: Rgba,
    pub code_background: Rgba,
    pub border: Rgba,
    pub link: ThemeColor<C>,
    pub accent: ThemeColor<C>,
}

/// The setting that says which theme is in use.
#[derive(Debug, Clone, Copy, PartialEq, Eq, Structural)]
pub struct ThemeSettings {
    pub theme_name: ThemeName,
}

/// Namespace for accessing the colors of the theme in use.
pub struct Theme;

impl Theme {
    /// The currently active theme name.
    pub fn name(settings: &ThemeSettings) -> (name: ThemeName)
        ensures
            name == settings.theme_name,
    {
        current_theme(settings)
    }

    /// Whether the current theme is dark.
    pub fn is_dark(settings: &ThemeSettings) -> (dark: bool)
        ensures
            dark == settings.theme_name.palette().is_dark,
    {
        current_theme(settings).is_dark()
    }

    pub fn bg(settings: &ThemeSettings) -> (color: Rgba)
        ensures
            color == settings.theme_name.palette().bg,
    {
        current_colors(settings).bg
    }

    pub fn panel(settings: &ThemeSettings) -> (color: Rgba)
        ensures
            color == settings.theme_name.palette().panel,
    {
        current_colors(settings).panel
    }

    pub fn sidebar(settings: &ThemeSettings) -> (color: Rgba)
        ensures
            color == settings.theme_name.palette().sidebar,
    {
        current_colors(settings).sidebar
    }

    pub fn panel_alt(settings: &ThemeSettings) -> (color: Rgba)
        ensures
            color == settings.theme_name.palette().panel_alt,
    {
        current_colors(settings).panel_alt
    }

    pub fn code_block_bg(settings: &ThemeSettings) -> (color: Rgba)
        ensures
            color == settings.theme_name.palette().code_block_bg,
    {
        current_colors(settings).code_block_bg
    }

    pub fn border(settings: &ThemeSettings) -> (color: Rgba)
        ensures
            color == settings.theme_name.palette().border,
    {
        current_colors(settings).border
    }

    pub fn text(settings: &ThemeSettings) -> (color: Rgba)
        ensures
            color == settings.theme_name.palette().text,
    {
        current_colors(settings).text
    }

    pub fn muted(settings: &ThemeSettings) -> (color: Rgba)
        ensures
            color == settings.theme_name.palette().muted,
    {
        current_colors(settings).muted
    }

    pub fn accent(settings: &ThemeSettings) -> (color: Rgba)
        ensures
            color == settings.theme_name.palette().accent,
    {
        current_colors(settings).accent
    }

    /// The platform's selection background, or that of the theme.
    pub fn selection_bg<C>(settings: &ThemeSettings, system: SystemColors<C>) -> (color: ThemeColor<
        C,
    >)
        ensures
            color == system_colors::preferred(
                system.selection_background,
                settings.theme_name.palette().selection_bg,
            ),
    {
        system_colors::selection_background(
            system.selection_background,
            current_colors(settings).selection_bg,
        )
    }

    /// Returns the system control accent for toolbar and navigation active states.
    pub fn control_accent<C>(
        settings: &ThemeSettings,
        system: SystemColors<C>,
    ) -> (color: ThemeColor<C>)
        ensures
            color == system_colors::preferred(
                system.control_accent,
                settings.theme_name.palette().accent,
            ),
    {
        system_colors::control_accent(system.control_accent, current_colors(settings).accent)
    }

    /// Markdown colors shared by the editor's inline styling and the preview renderer.
    pub fn markdown_style<C: Copy>(
        settings: &ThemeSettings,
        system: SystemColors<C>,
    ) -> (style: MarkdownStyle<C>)
        ensures
            style == markdown_colors(settings.theme_name.palette(), system),
    {
        let colors = current_colors(settings);
        MarkdownStyle {
            foreground: colors.text,
            muted_foreground: colors.muted,
            background: colors.bg,
            code_background: colors.code_block_bg,
            border: colors.border,
            link: Self::control_accent(settings, system),
            accent: Self::selection_bg(settings, system),
        }
    }
}

/// The Markdown colors of a palette on a platform.
pub open spec fn markdown_colors<C>(
    colors: ThemeColors,
    system: SystemColors<C>,
) -> MarkdownStyle<C> {
    MarkdownStyle {
        foreground: colors.text,
        muted_foreground: colors.muted,
        background: colors.bg,
        code_background: colors.code_block_bg,
        border: colors.border,
        link: system_colors::preferred(system.control_accent, colors.accent),
        accent: system_colors::preferred(system.selection_background, colors.selection_bg),
    }
}

fn current_theme(settings: &ThemeSettings) -> (name: ThemeName)
    ensures
        name == settings.theme_name,
{
    settings.theme_name
}

fn current_colors(settings: &ThemeSettings) -> (colors: ThemeColors)
    ensures
        colors == settings.theme_name.palette(),
{
    current_theme(settings).colors()
}

/// Switches the active theme and returns whether the new theme is dark, so that callers can
/// sync what depends on it.
pub fn set_theme(settings: &mut ThemeSettings, name: ThemeName) -> (dark: bool)
    ensures
        final(settings).theme_name == name,
        dark == name.palette().is_dark,
{
    settings.theme_name = name;
    name.is_dark()
}

} // verus!
