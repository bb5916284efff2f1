//! The colors of the platform, which come before those of the theme where there are any.
use vstd::prelude::*;

verus! {

/// A color of a palette, written `0xRRGGBBAA`.
#[derive(Debug, Clone, Copy, PartialEq, Eq, Structural)]
pub struct Rgba {
    pub hex: u32,
}

/// A color of a palette, or one that the platform gave, in the platform's own form.
#[derive(Debug, Clone, Copy, PartialEq, Eq)]
pub enum ThemeColor<C> {
    Palette(Rgba),
    System(C),
}

/// The colors that the platform gives, where it gives any.
#[derive(Debug, Clone, Copy)]
pub struct SystemColors<C> {
    pub selection_background: Option<C>,
    pub control_accent: Option<C>,
}

/// The platform's color, or the fallback where the platform has none.
pub open spec fn preferred<C>(platform: Option<C>, fallback: Rgba) -> ThemeColor<C> {
    match platform {
        Some(color) => ThemeColor::System(color),
        None => ThemeColor::Palette(fallback),
    }
}

/// Returns the platform selection background, or the supplied theme color when unavailable.
pub fn selection_background<C>(platform: Option<C>, fallback: Rgba) -> (color: ThemeColor<C>)
    ensures
        color == preferred(platform, fallback),
{
    match platform {
        Some(color) => ThemeColor::System(color),
        None => ThemeColor::Palette(fallback),
    }
}

/// Returns the platform control accent, or the supplied theme color when unavailable.
pub fn control_accent<C>(platform: Option<C>, fallback: Rgba) -> (color: ThemeColor<C>)
    ensures
        color == preferred(platform, fallback),
{
    match platform {
        Some(color) => ThemeColor::System(color),
        None => ThemeColor::Palette(fallback),
    }
}

} // verus!
