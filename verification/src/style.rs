//! Styles: what is configured of pages and of text.

use vstd::prelude::*;
use crate::geom::{is_extent, Sides, Size};

verus! {

/// The width of an A4 page.
pub const A4_WIDTH: i64 = 5_952_800;

/// The height of an A4 page.
pub const A4_HEIGHT: i64 = 8_418_900;

/// Two and a half centimetres.
pub const DEFAULT_MARGIN: i64 = 708_661;

/// Eleven points.
pub const DEFAULT_FONT_SIZE: i64 = 110_000;

/// Which face of a family is meant.
#[derive(Clone, Copy, Debug, PartialEq, Eq, Structural)]
pub struct FontVariant {
    pub italic: bool,
    pub bold: bool,
}

impl FontVariant {
    /// The upright face of regular weight.
    pub open spec fn regular() -> FontVariant {
        FontVariant { italic: false, bold: false }
    }
}

/// How text is set.
#[derive(Clone, Debug, PartialEq, Eq)]
pub struct TextStyle {
    /// The font families to take glyphs from, the preferred one first.
    pub family: Vec<String>,
    /// The face to take of each family.
    pub variant: FontVariant,
    /// The font size.
    pub size: i64,
    /// The tags of the font features that are switched on.
    pub features: Vec<u32>,
    /// The room between two paragraphs.
    pub par_spacing: i64,
}

impl TextStyle {
    /// Whether the font size and the paragraph spacing are extents.
    pub open spec fn wf(&self) -> bool {
        is_extent(self.size) && is_extent(self.par_spacing)
    }

    /// The names of the families, the preferred one first.
    pub open spec fn families(&self) -> Seq<Seq<char>> {
        Seq::new(self.family@.len(), |i: int| self.family@[i]@)
    }
}

impl Default for TextStyle {
    /// No family, the regular face, eleven points, and a paragraph spacing of
    /// as much.
    fn default() -> (style: TextStyle)
        ensures
            style.wf(),
            style.family@.len() == 0,
            style.variant == FontVariant::regular(),
            style.size == DEFAULT_FONT_SIZE,
            style.features@.len() == 0,
            style.par_spacing == DEFAULT_FONT_SIZE,
    {
        TextStyle {
            family: Vec::new(),
            variant: FontVariant { italic: false, bold: false },
            size: DEFAULT_FONT_SIZE,
            features: Vec::new(),
            par_spacing: DEFAULT_FONT_SIZE,
        }
    }
}

/// The size of a page and its margins.
#[derive(Clone, Copy, Debug, PartialEq, Eq, Structural)]
pub struct PageStyle {
    pub size: Size,
    pub margins: Sides,
}

impl PageStyle {
    /// Whether the size and the margins are extents.
    pub open spec fn wf(self) -> bool {
        self.size.wf() && self.margins.wf()
    }

    /// The margins.
    pub fn margins(&self) -> (m: Sides)
        ensures
            m == self.margins,
    {
        self.margins
    }
}

impl Default for PageStyle {
    /// An A4 page with margins of two and a half centimetres.
    fn default() -> (style: PageStyle)
        ensures
            style.wf(),
            style.size == (Size { width: A4_WIDTH, height: A4_HEIGHT }),
            style.margins == (Sides {
                left: DEFAULT_MARGIN,
                top: DEFAULT_MARGIN,
                right: DEFAULT_MARGIN,
                bottom: DEFAULT_MARGIN,
            }),
    {
        PageStyle {
            size: Size::new(A4_WIDTH, A4_HEIGHT),
            margins: Sides::uniform(DEFAULT_MARGIN),
        }
    }
}

/// What is configured of a document.
#[derive(Clone, Debug, PartialEq, Eq)]
pub struct LayoutStyle {
    pub page: PageStyle,
    pub text: TextStyle,
}

impl LayoutStyle {
    /// Whether the page and the text are configured with extents.
    pub open spec fn wf(&self) -> bool {
        self.page.wf() && self.text.wf()
    }
}

impl Default for LayoutStyle {
    /// The default page with the default text.
    fn default() -> (style: LayoutStyle)
        ensures
            style.wf(),
            style.page.size == (Size { width: A4_WIDTH, height: A4_HEIGHT }),
            style.page.margins == (Sides {
                left: DEFAULT_MARGIN,
                top: DEFAULT_MARGIN,
                right: DEFAULT_MARGIN,
                bottom: DEFAULT_MARGIN,
            }),
            style.text.size == DEFAULT_FONT_SIZE,
            style.text.par_spacing == DEFAULT_FONT_SIZE,
            style.text.family@.len() == 0,
    {
        LayoutStyle { page: PageStyle::default(), text: TextStyle::default() }
    }
}

} // verus!
