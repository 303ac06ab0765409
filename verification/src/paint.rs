//! Paint and style data carried by entities.  Evaluation passes these
//! through unchanged; colour channels are 8-bit and the remaining numeric
//! fields are fixed-point.

use vstd::prelude::*;

verus! {

/// An RGBA colour: 8-bit red, green and blue channels and a fixed-point
/// alpha.
#[derive(Debug, Clone, Copy, PartialEq, Eq)]
pub struct Color {
    pub value: (u8, u8, u8, i64),
}

impl Color {
    /// Packs the four channels into a colour.
    pub fn new(red: u8, green: u8, blue: u8, alpha: i64) -> (c: Color)
        ensures
            c.value == (red, green, blue, alpha),
    {
        Color { value: (red, green, blue, alpha) }
    }
}

/// A filled style.
#[derive(Debug, Clone, Copy, PartialEq, Eq)]
pub struct FillStyle {
    pub color: Color,
}

/// A stroked style with a fixed-point stroke width.
#[derive(Debug, Clone, Copy, PartialEq, Eq)]
pub struct StrokeStyle {
    pub color: Color,
    pub width: i64,
}

/// A style that both strokes and fills.
#[derive(Debug, Clone, Copy, PartialEq, Eq)]
pub struct StrokeAndFillStyle {
    pub stroke: StrokeStyle,
    pub fill: FillStyle,
}

/// How a shape is painted.
#[derive(Debug, Clone, Copy, PartialEq, Eq)]
pub enum PaintStyle {
    Fill(FillStyle),
    Stroke(StrokeStyle),
    StrokeAndFill(StrokeAndFillStyle),
}

/// Paint for a shape entity.
#[derive(Debug, Clone, Copy, PartialEq, Eq)]
pub struct Paint {
    pub style: PaintStyle,
}

/// Horizontal alignment of a text entity.
#[derive(Debug, Clone, Copy, PartialEq, Eq)]
pub enum TextAlign {
    Left,
    Center,
    Right,
}

/// Paint for a text entity: style, alignment, font reference and
/// fixed-point font size.  The font name is only a reference; a rendering
/// backend resolves it.
#[derive(Debug, Clone, PartialEq)]
pub struct TextPaint {
    pub style: PaintStyle,
    pub align: TextAlign,
    pub font_name: String,
    pub size: i64,
}

/// An exact copy of a text paint (field by field, so the copy is known to
/// equal the original).
pub fn clone_text_paint(p: &TextPaint) -> (r: TextPaint)
    ensures
        r == *p,
{
    TextPaint { style: p.style, align: p.align, font_name: p.font_name.clone(), size: p.size }
}

/// A font family reference, as listed by a font provider.
#[derive(Debug, Clone, PartialEq)]
pub struct FontDefinition {
    pub family_name: String,
}

/// Font metadata, as reported by a font provider.
#[derive(Debug, Clone, PartialEq)]
pub struct Font {
    pub glyph_count: i32,
    pub weight: i32,
    pub style: String,
}

} // verus!
