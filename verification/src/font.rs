//! Font faces as plain values, and the loader that holds them.
//!
//! A face says which characters it covers, with which glyph and how far that
//! glyph advances, and how far it reaches above and below the baseline, all in
//! font units.

use vstd::prelude::*;
use crate::style::FontVariant;

verus! {

/// The glyph of a character in a face.
#[derive(Clone, Copy, Debug, PartialEq, Eq, Structural)]
pub struct Glyph {
    /// The character.
    pub c: char,
    /// The number of the glyph in the face.
    pub id: u16,
    /// How far the glyph advances, in font units.
    pub advance: u16,
}

/// A font face.
#[derive(Clone, Debug, PartialEq, Eq)]
pub struct FontFace {
    /// The name of the family the face belongs to.
    pub family: String,
    /// Which face of the family it is.
    pub variant: FontVariant,
    /// The number of font units in the font size.
    pub units_per_em: u16,
    /// How far the face reaches above the baseline, in font units.
    pub ascender: i16,
    /// How far the face reaches below the baseline, in font units and
    /// negative.
    pub descender: i16,
    /// How far the glyph for missing characters, glyph 0, advances, in font
    /// units.
    pub notdef_advance: u16,
    /// The glyphs of the characters that the face covers. Where a character
    /// comes twice, the first entry counts.
    pub glyphs: Vec<Glyph>,
}

/// The first glyph of `c` among `glyphs` from index `from` on.
pub open spec fn glyph_from(glyphs: Seq<Glyph>, c: char, from: int) -> Option<Glyph>
    decreases glyphs.len() - from,
{
    if from < 0 || from >= glyphs.len() {
        None
    } else if glyphs[from].c == c {
        Some(glyphs[from])
    } else {
        glyph_from(glyphs, c, from + 1)
    }
}

/// What `glyph_from` finds is an entry for the character, and no entry before
/// it is.
pub proof fn lemma_glyph_from(glyphs: Seq<Glyph>, c: char, from: int)
    requires
        0 <= from,
    ensures
        match glyph_from(glyphs, c, from) {
            Some(g) => exists|i: int|
                from <= i < glyphs.len() && #[trigger] glyphs[i] == g && g.c == c && forall|j: int|
                    from <= j < i ==> (#[trigger] glyphs[j]).c != c,
            None => forall|j: int| from <= j < glyphs.len() ==> (#[trigger] glyphs[j]).c != c,
        },
    decreases glyphs.len() - from,
{
    if from < glyphs.len() {
        if glyphs[from].c == c {
            assert(glyphs[from] == glyph_from(glyphs, c, from)->0);
        } else {
            lemma_glyph_from(glyphs, c, from + 1);
            if let Some(g) = glyph_from(glyphs, c, from + 1) {
                let i = choose|i: int|
                    from + 1 <= i < glyphs.len() && #[trigger] glyphs[i] == g && g.c == c
                        && forall|j: int| from + 1 <= j < i ==> (#[trigger] glyphs[j]).c != c;
                assert(from <= i < glyphs.len() && glyphs[i] == g && g.c == c && forall|j: int|
                    from <= j < i ==> (#[trigger] glyphs[j]).c != c);
            }
        }
    }
}

impl FontFace {
    /// Whether the face can be measured: it has font units, reaches up from
    /// the baseline and down from it.
    pub open spec fn usable(&self) -> bool {
        self.units_per_em > 0 && self.ascender >= 0 && self.descender <= 0
    }

    /// Whether the face can be measured.
    pub fn is_usable(&self) -> (b: bool)
        ensures
            b == self.usable(),
    {
        self.units_per_em > 0 && self.ascender >= 0 && self.descender <= 0
    }

    /// The glyph of `c`, if the face covers `c`.
    pub open spec fn spec_glyph(&self, c: char) -> Option<Glyph> {
        glyph_from(self.glyphs@, c, 0)
    }

    /// The glyph of `c`, if the face covers `c`.
    pub fn glyph(&self, c: char) -> (g: Option<Glyph>)
        ensures
            g == self.spec_glyph(c),
            g matches Some(glyph) ==> glyph.c == c && self.glyphs@.contains(glyph),
            g is None ==> forall|j: int|
                0 <= j < self.glyphs@.len() ==> (#[trigger] self.glyphs@[j]).c != c,
    {
        proof {
            lemma_glyph_from(self.glyphs@, c, 0);
        }
        let n: usize = self.glyphs.len();
        let mut i: usize = 0;
        while i < n
            invariant
                n == self.glyphs@.len(),
                i <= n,
                self.spec_glyph(c) == glyph_from(self.glyphs@, c, i as int),
            decreases n - i,
        {
            if self.glyphs[i].c == c {
                return Some(self.glyphs[i]);
            }
            i += 1;
        }
        None
    }
}

/// The index of the first face among `faces`, from index `from` on, that
/// belongs to `family` and is the face `variant` of it.
pub open spec fn face_from(
    faces: Seq<FontFace>,
    family: Seq<char>,
    variant: FontVariant,
    from: int,
) -> Option<int>
    decreases faces.len() - from,
{
    if from < 0 || from >= faces.len() {
        None
    } else if faces[from].family@ == family && faces[from].variant == variant {
        Some(from)
    } else {
        face_from(faces, family, variant, from + 1)
    }
}

/// What `face_from` finds is a face of the family and variant asked for, and
/// no face before it is.
pub proof fn lemma_face_from(faces: Seq<FontFace>, family: Seq<char>, variant: FontVariant, from: int)
    requires
        0 <= from,
    ensures
        match face_from(faces, family, variant, from) {
            Some(i) => from <= i < faces.len() && faces[i].family@ == family && faces[i].variant
                == variant && forall|j: int|
                from <= j < i ==> !(#[trigger] faces[j].family@ == family && faces[j].variant
                    == variant),
            None => forall|j: int|
                from <= j < faces.len() ==> !(#[trigger] faces[j].family@ == family
                    && faces[j].variant == variant),
        },
    decreases faces.len() - from,
{
    if from < faces.len() && !(faces[from].family@ == family && faces[from].variant == variant) {
        lemma_face_from(faces, family, variant, from + 1);
    }
}

/// The font faces that are loaded. A face is known by its index.
#[derive(Clone, Debug, PartialEq, Eq)]
pub struct FontLoader {
    pub faces: Vec<FontFace>,
}

impl View for FontLoader {
    type V = Seq<FontFace>;

    open spec fn view(&self) -> Seq<FontFace> {
        self.faces@
    }
}

impl FontLoader {
    /// A loader without faces.
    pub fn new() -> (loader: FontLoader)
        ensures
            loader@.len() == 0,
    {
        FontLoader { faces: Vec::new() }
    }

    /// Adds a face after those that are loaded and gives its index.
    pub fn add(&mut self, face: FontFace) -> (id: usize)
        ensures
            final(self)@ == old(self)@.push(face),
            id == old(self)@.len(),
    {
        let id: usize = self.faces.len();
        self.faces.push(face);
        id
    }

    /// The number of faces that are loaded.
    pub fn len(&self) -> (n: usize)
        ensures
            n == self@.len(),
    {
        self.faces.len()
    }

    /// The index of the first face that belongs to `family` and is the face
    /// `variant` of it; `None` if no such face is loaded.
    #[verifier::loop_isolation(false)]
    pub fn load(&self, family: &String, variant: FontVariant) -> (id: Option<usize>)
        ensures
            match id {
                Some(i) => {
                    &&& face_from(self@, family@, variant, 0) == Some(i as int)
                    &&& i < self@.len()
                    &&& self@[i as int].family@ == family@
                    &&& self@[i as int].variant == variant
                    &&& forall|j: int|
                        0 <= j < i ==> !(#[trigger] self@[j].family@ == family@ && self@[j].variant
                            == variant)
                },
                None => {
                    &&& face_from(self@, family@, variant, 0) is None
                    &&& forall|j: int|
                        0 <= j < self@.len() ==> !(#[trigger] self@[j].family@ == family@
                            && self@[j].variant == variant)
                },
            },
    {
        proof {
            lemma_face_from(self@, family@, variant, 0);
        }
        let n: usize = self.faces.len();
        let mut i: usize = 0;
        while i < n
            invariant
                n == self@.len(),
                i <= n,
                face_from(self@, family@, variant, 0) == face_from(
                    self@,
                    family@,
                    variant,
                    i as int,
                ),
            decreases n - i,
        {
            if self.faces[i].family == *family && self.faces[i].variant == variant {
                return Some(i);
            }
            i += 1;
        }
        None
    }

    /// The face with index `id`.
    pub fn get_by_id(&self, id: usize) -> (face: &FontFace)
        requires
            id < self@.len(),
        ensures
            *face == self@[id as int],
    {
        &self.faces[id]
    }
}

} // verus!
