//! The widget's dark color palette, as `0xRRGGBB` values.

use vstd::prelude::*;

verus! {

/// Dark theme color palette for the widget.
pub struct WidgetTheme;

impl WidgetTheme {
    /// Background of the window.
    pub fn bg_primary() -> (rgb: u32)
        ensures
            rgb == 0x1a1a2e,
    {
        0x1a1a2e
    }

    /// Background of the cards.
    pub fn bg_secondary() -> (rgb: u32)
        ensures
            rgb == 0x16213e,
    {
        0x16213e
    }

    /// Background of buttons and cells.
    pub fn bg_accent() -> (rgb: u32)
        ensures
            rgb == 0x0f3460,
    {
        0x0f3460
    }

    /// Main text.
    pub fn text_primary() -> (rgb: u32)
        ensures
            rgb == 0xe8e8e8,
    {
        0xe8e8e8
    }

    /// Secondary text.
    pub fn text_secondary() -> (rgb: u32)
        ensures
            rgb == 0xa0a0b0,
    {
        0xa0a0b0
    }

    /// Highlighted text.
    pub fn text_accent() -> (rgb: u32)
        ensures
            rgb == 0x00d2ff,
    {
        0x00d2ff
    }

    /// A setting that is on.
    pub fn success() -> (rgb: u32)
        ensures
            rgb == 0x00c853,
    {
        0x00c853
    }

    /// Usage at 70% or more.
    pub fn warning() -> (rgb: u32)
        ensures
            rgb == 0xff9100,
    {
        0xff9100
    }

    /// Usage at 90% or more, errors, urgent countdowns.
    pub fn danger() -> (rgb: u32)
        ensures
            rgb == 0xff1744,
    {
        0xff1744
    }

    /// The empty part of a progress bar.
    pub fn progress_bg() -> (rgb: u32)
        ensures
            rgb == 0x2a2a3e,
    {
        0x2a2a3e
    }

    /// The filled part of a progress bar below the warning level.
    pub fn progress_fill() -> (rgb: u32)
        ensures
            rgb == 0x536dfe,
    {
        0x536dfe
    }

    /// Borders and separators.
    pub fn border() -> (rgb: u32)
        ensures
            rgb == 0x2a2a4a,
    {
        0x2a2a4a
    }
}

} // verus!
