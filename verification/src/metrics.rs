//! Lengths and font measurements.
//!
//! Every length the engine handles is a whole number of layout units, 64 to
//! the pixel, so that half pixels (a line height of 22.5 pixels) are exact and
//! all arithmetic is integer arithmetic. Positions are `i128`: wide enough for
//! any line index, line height and glyph count the other types admit, so no
//! layout computation can overflow.

use vstd::prelude::*;

verus! {

/// Layout units per pixel.
pub const UNITS_PER_PIXEL: u64 = 64;

/// The font size: 15 pixels.
pub const FONT_SIZE: u32 = 960;

/// A line is one and a half font sizes high.
pub const LINE_HEIGHT_NUMERATOR: u64 = 3;

pub const LINE_HEIGHT_DENOMINATOR: u64 = 2;

/// Glyphs are measured at four thirds of the font size.
pub const GLYPH_SCALE_NUMERATOR: u64 = 4;

pub const GLYPH_SCALE_DENOMINATOR: u64 = 3;

/// Width of a cursor rectangle: one pixel.
pub const CURSOR_WIDTH: i128 = 64;

/// The first line's baseline sits this far above one line height below the
/// top of the document: five pixels.
pub const TOP_INSET: i128 = 320;

/// The vertical measurements of the font at the size in use, in layout units.
#[derive(Clone, Copy, Debug, PartialEq, Eq)]
pub struct FontMetrics {
    /// The distance from one baseline to the next.
    pub line_height: u32,
    /// How far the tallest glyphs reach above the baseline.
    pub ascent: i32,
    /// How far the deepest glyphs reach below the baseline, as a negative
    /// number.
    pub descent: i32,
}

/// The horizontal measurements of one glyph of a line, in layout units.
#[derive(Clone, Copy, Debug, PartialEq, Eq)]
pub struct GlyphMetrics {
    /// The font's identifier of the glyph.
    pub id: u32,
    /// How far the pen moves after the glyph.
    pub advance: i32,
    /// The correction between the glyph before this one and this one. The
    /// engine ignores it on the first glyph of a line.
    pub kerning: i32,
}

/// A length in pixels as layout units.
pub open spec fn units(pixels: int) -> int {
    pixels * UNITS_PER_PIXEL as int
}

/// Converts a whole number of pixels to layout units.
pub fn pixels_to_units(pixels: u32) -> (length: u64)
    ensures
        length == units(pixels as int),
{
    pixels as u64 * UNITS_PER_PIXEL
}

/// The line height that goes with a font size: three halves of it, rounded
/// down to a whole unit.
pub open spec fn line_height_of(font_size: int) -> int {
    font_size * LINE_HEIGHT_NUMERATOR as int / LINE_HEIGHT_DENOMINATOR as int
}

/// Computes the line height for a font size.
pub fn line_height_for(font_size: u32) -> (height: u64)
    ensures
        height == line_height_of(font_size as int),
{
    font_size as u64 * LINE_HEIGHT_NUMERATOR / LINE_HEIGHT_DENOMINATOR
}

/// The scale at which the glyphs of a font size are measured: four thirds of
/// it, rounded down to a whole unit.
pub open spec fn glyph_scale_of(font_size: int) -> int {
    font_size * GLYPH_SCALE_NUMERATOR as int / GLYPH_SCALE_DENOMINATOR as int
}

/// Computes the scale at which to measure glyphs for a font size.
pub fn glyph_scale_for(font_size: u32) -> (scale: u64)
    ensures
        scale == glyph_scale_of(font_size as int),
{
    font_size as u64 * GLYPH_SCALE_NUMERATOR / GLYPH_SCALE_DENOMINATOR
}

/// How many whole lines fit a view of the given height.
pub open spec fn lines_in_view(view_height_px: int, line_height: int) -> int
    recommends
        line_height > 0,
{
    units(view_height_px) / line_height
}

/// Counts the whole lines that fit a view.
pub fn visible_line_count(view_height_px: u32, line_height: u32) -> (count: u64)
    requires
        line_height > 0,
    ensures
        count == lines_in_view(view_height_px as int, line_height as int),
{
    pixels_to_units(view_height_px) / (line_height as u64)
}

} // verus!
