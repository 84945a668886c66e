//! The atomic drawable elements a layout consists of.

use vstd::prelude::*;
use crate::geom::{Point, Size};
use crate::primitive::Dir;

verus! {

/// A colour as red, green, blue and opacity.
#[derive(Clone, Copy, Debug, PartialEq, Eq, Structural)]
pub struct Color {
    pub r: u8,
    pub g: u8,
    pub b: u8,
    pub a: u8,
}

/// A run of glyphs of one font face. It is positioned by the start of its
/// baseline.
#[derive(Clone, Debug, PartialEq, Eq)]
pub struct ShapedText {
    /// The index of the face in the font loader.
    pub face: usize,
    /// The font size.
    pub size: i64,
    /// The direction in which the glyphs progress.
    pub dir: Dir,
    /// The glyph of each character, in text order.
    pub glyphs: Vec<u16>,
    /// How far each glyph advances, at the font size.
    pub advances: Vec<i64>,
}

/// A filled rectangle.
#[derive(Clone, Copy, Debug, PartialEq, Eq, Structural)]
pub struct FilledShape {
    pub size: Size,
    pub fill: Color,
}

/// A raster image held by the renderer.
#[derive(Clone, Copy, Debug, PartialEq, Eq, Structural)]
pub struct ImageRef {
    /// The index of the image in the renderer's store.
    pub id: usize,
    pub size: Size,
}

/// Something a renderer can draw as it stands. Elements do not nest.
#[derive(Clone, Debug, PartialEq, Eq)]
pub enum LayoutElement {
    Text(ShapedText),
    Shape(FilledShape),
    Image(ImageRef),
}

/// A run of glyphs as a mathematical value.
pub struct TextView {
    pub face: usize,
    pub size: i64,
    pub dir: Dir,
    pub glyphs: Seq<u16>,
    pub advances: Seq<i64>,
}

impl View for ShapedText {
    type V = TextView;

    open spec fn view(&self) -> TextView {
        TextView {
            face: self.face,
            size: self.size,
            dir: self.dir,
            glyphs: self.glyphs@,
            advances: self.advances@,
        }
    }
}

/// An element as a mathematical value.
pub enum ElementView {
    Text(TextView),
    Shape(FilledShape),
    Image(ImageRef),
}

impl View for LayoutElement {
    type V = ElementView;

    open spec fn view(&self) -> ElementView {
        match self {
            LayoutElement::Text(text) => ElementView::Text(text@),
            LayoutElement::Shape(shape) => ElementView::Shape(*shape),
            LayoutElement::Image(image) => ElementView::Image(*image),
        }
    }
}

/// Positioned elements as mathematical values.
pub open spec fn element_views(elements: Seq<(Point, LayoutElement)>) -> Seq<(Point, ElementView)> {
    Seq::new(elements.len(), |i: int| (elements[i].0, elements[i].1@))
}

} // verus!
