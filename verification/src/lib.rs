//! A document layout engine.
//!
//! A syntax tree is turned into pages: text is shaped into boxes of glyph
//! runs, and boxes, spaces and breaks are stacked from the top of rectangular
//! areas into page layouts, flat collections of positioned elements.
//!
//! All lengths are whole numbers of units, ten thousand to the point.

pub mod geom;
pub mod primitive;
pub mod diag;
pub mod elements;
pub mod area;
pub mod layout;
pub mod stack;
pub mod style;
pub mod font;
pub mod shaping;
pub mod syntax;
pub mod pipeline;

pub use area::{Area, Areas, Overflow, ShapeGroup};
pub use diag::{Diagnostic, DiagnosticKind, Feedback, Pass, Span, Spanned};
pub use elements::{Color, FilledShape, ImageRef, LayoutElement, ShapedText};
pub use font::{FontFace, FontLoader, Glyph};
pub use geom::{Dim, Point, Rect, Sides, Size, EPS, MAX_LEN, UNITS_PER_PT};
pub use layout::{Collider, Layout, LayoutItem, Layouter, Placement};
pub use pipeline::{layout, Env, State};
pub use primitive::{Dir, GenAlign, GenAxis, Side, SpecAlign, SpecAxis};
pub use shaping::{shape, ShapeOptions};
pub use stack::{StackLayouter, StackOptions};
pub use style::{FontVariant, LayoutStyle, PageStyle, TextStyle};
pub use syntax::{SyntaxNode, SyntaxTree};
