//! Metrics of the 6x12 monospace font that the text terminals draw with.
//!
//! The values are read from `embedded_graphics::mono_font::ascii::FONT_6X12`.

use embedded_graphics::mono_font::ascii::FONT_6X12;
use vstd::prelude::*;

verus! {

/// Width of one glyph cell of `FONT_6X12` (`character_size.width`).
///
/// Trusted: the font's definition gives a character size of 6 x 12 pixels.
#[verifier::external_body]
pub(crate) fn glyph_width() -> (w: u32)
    ensures
        w == 6,
{
    FONT_6X12.character_size.width
}

/// Height of one glyph cell of `FONT_6X12` (`character_size.height`), which
/// is also the distance between two text lines.
///
/// Trusted: the font's definition gives a character size of 6 x 12 pixels.
#[verifier::external_body]
pub(crate) fn glyph_height() -> (h: u32)
    ensures
        h == 12,
{
    FONT_6X12.character_size.height
}

/// Extra horizontal space between two glyphs of `FONT_6X12`
/// (`character_spacing`).
///
/// Trusted: the font's definition gives a character spacing of 0.
#[verifier::external_body]
pub(crate) fn glyph_spacing() -> (s: u32)
    ensures
        s == 0,
{
    FONT_6X12.character_spacing
}

} // verus!
