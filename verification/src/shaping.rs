//! Shaping: from a run of characters to a layout of glyph runs.
//!
//! Each character takes its glyph from the first family of the style that has
//! a loaded face covering it. Characters that follow one another and take their
//! glyphs from the same face form a run, and each run becomes one element,
//! positioned by the start of its baseline.

use vstd::prelude::*;
use crate::diag::{Diagnostic, DiagnosticKind, Feedback, Pass};
use crate::elements::{ElementView, LayoutElement, ShapedText, TextView};
use crate::font::{face_from, FontFace, FontLoader, Glyph};
use crate::geom::{max_int, max_len, Dim, Point, MAX_LEN};
use crate::layout::{Layout, LayoutView};
use crate::primitive::Dir;
use crate::style::{FontVariant, TextStyle};

verus! {

/// What shaping works with.
pub struct ShapeOptions<'a> {
    /// The faces that are loaded.
    pub loader: &'a FontLoader,
    /// How the text is set.
    pub style: &'a TextStyle,
    /// The direction in which the glyphs progress.
    pub dir: Dir,
}

/// The glyph that a character takes, and the face it takes it from.
#[derive(Clone, Copy, Debug, PartialEq, Eq)]
pub struct Pick {
    /// The index of the face; `None` if no family of the style has a face.
    pub face: Option<usize>,
    /// The number of the glyph in the face.
    pub glyph: u16,
    /// How far the glyph advances, in font units.
    pub advance: u16,
    /// Whether no face covers the character, so that the glyph is the one for
    /// missing characters.
    pub missing: bool,
}

/// The face and the glyph for `c` of the first family, from the `k`-th on,
/// that has a loaded face covering `c`.
pub open spec fn covering_from(
    faces: Seq<FontFace>,
    families: Seq<Seq<char>>,
    variant: FontVariant,
    c: char,
    k: int,
) -> Option<(int, Glyph)>
    decreases families.len() - k,
{
    if k < 0 || k >= families.len() {
        None
    } else {
        match face_from(faces, families[k], variant, 0) {
            Some(f) => match faces[f].spec_glyph(c) {
                Some(g) => Some((f, g)),
                None => covering_from(faces, families, variant, c, k + 1),
            },
            None => covering_from(faces, families, variant, c, k + 1),
        }
    }
}

/// The face of the first family, from the `k`-th on, that has a loaded face.
pub open spec fn primary_from(
    faces: Seq<FontFace>,
    families: Seq<Seq<char>>,
    variant: FontVariant,
    k: int,
) -> Option<int>
    decreases families.len() - k,
{
    if k < 0 || k >= families.len() {
        None
    } else {
        match face_from(faces, families[k], variant, 0) {
            Some(f) => Some(f),
            None => primary_from(faces, families, variant, k + 1),
        }
    }
}

/// The glyph that `c` takes: that of the first family with a face covering
/// `c`; where there is none, the glyph for missing characters of the first
/// family with a face; where no family has a face, nothing.
pub open spec fn pick_of(
    faces: Seq<FontFace>,
    families: Seq<Seq<char>>,
    variant: FontVariant,
    c: char,
) -> Pick {
    match covering_from(faces, families, variant, c, 0) {
        Some((f, g)) => Pick { face: Some(f as usize), glyph: g.id, advance: g.advance, missing: false },
        None => match primary_from(faces, families, variant, 0) {
            Some(f) => Pick {
                face: Some(f as usize),
                glyph: 0,
                advance: faces[f].notdef_advance,
                missing: true,
            },
            None => Pick { face: None, glyph: 0, advance: 0, missing: true },
        },
    }
}

/// Picks the glyph for `c`.
pub fn pick_glyph(loader: &FontLoader, style: &TextStyle, c: char) -> (pick: Pick)
    ensures
        pick == pick_of(loader@, style.families(), style.variant, c),
        pick.face matches Some(f) ==> f < loader@.len(),
{
    let ghost families = style.families();
    let n: usize = style.family.len();
    let mut k: usize = 0;
    while k < n
        invariant
            n == style.family@.len(),
            families == style.families(),
            k <= n,
            covering_from(loader@, families, style.variant, c, 0) == covering_from(
                loader@,
                families,
                style.variant,
                c,
                k as int,
            ),
        decreases n - k,
    {
        assert(families[k as int] == style.family@[k as int]@);
        match loader.load(&style.family[k], style.variant) {
            Some(f) => {
                match loader.get_by_id(f).glyph(c) {
                    Some(g) => {
                        return Pick { face: Some(f), glyph: g.id, advance: g.advance, missing: false };
                    },
                    None => {},
                }
            },
            None => {},
        }
        k += 1;
    }
    let mut k: usize = 0;
    while k < n
        invariant
            n == style.family@.len(),
            families == style.families(),
            k <= n,
            covering_from(loader@, families, style.variant, c, 0) is None,
            primary_from(loader@, families, style.variant, 0) == primary_from(
                loader@,
                families,
                style.variant,
                k as int,
            ),
        decreases n - k,
    {
        assert(families[k as int] == style.family@[k as int]@);
        match loader.load(&style.family[k], style.variant) {
            Some(f) => {
                return Pick {
                    face: Some(f),
                    glyph: 0,
                    advance: loader.get_by_id(f).notdef_advance,
                    missing: true,
                };
            },
            None => {},
        }
        k += 1;
    }
    Pick { face: None, glyph: 0, advance: 0, missing: true }
}

/// The largest number that a face gives in font units.
pub const MAX_UNITS: i64 = 65_535;

/// A length of `v` font units at the font size `size`, in a face with `upem`
/// font units to the font size, rounded down to whole units.
pub open spec fn scaled(v: int, size: int, upem: int) -> int {
    (v * size) / upem
}

/// Converts `v` font units to a length at the font size `size`.
fn scale(v: i64, size: i64, upem: i64) -> (r: i64)
    requires
        0 <= v <= MAX_UNITS,
        0 <= size <= MAX_LEN,
        0 < upem <= MAX_UNITS,
    ensures
        r == scaled(v as int, size as int, upem as int),
        0 <= r <= MAX_UNITS * MAX_LEN,
{
    assert(0 <= v * size <= MAX_UNITS * MAX_LEN) by (nonlinear_arith)
        requires
            0 <= v <= MAX_UNITS,
            0 <= size <= MAX_LEN,
    ;
    let product: i64 = v * size;
    assert(0 <= product / upem <= product) by (nonlinear_arith)
        requires
            0 <= product,
            0 < upem,
    ;
    product / upem
}

/// Whether two picks may name the same face.
fn same_face(a: Option<usize>, b: Option<usize>) -> (r: bool)
    ensures
        r == (a == b),
{
    match (a, b) {
        (Some(x), Some(y)) => x == y,
        (None, None) => true,
        _ => false,
    }
}

/// The glyphs that the characters of `text` take, in text order.
pub open spec fn picks_of(
    faces: Seq<FontFace>,
    families: Seq<Seq<char>>,
    variant: FontVariant,
    text: Seq<char>,
) -> Seq<Pick> {
    Seq::new(text.len(), |i: int| pick_of(faces, families, variant, text[i]))
}

/// A diagnostic for each of the first `n` characters of `text` that no face
/// covers, in text order.
pub open spec fn missing_upto(
    faces: Seq<FontFace>,
    families: Seq<Seq<char>>,
    variant: FontVariant,
    text: Seq<char>,
    n: int,
) -> Seq<Diagnostic>
    decreases n,
{
    if n <= 0 {
        Seq::empty()
    } else {
        let before = missing_upto(faces, families, variant, text, n - 1);
        if pick_of(faces, families, variant, text[n - 1]).missing {
            before.push(Diagnostic { kind: DiagnosticKind::MissingGlyph(text[n - 1]), span: None })
        } else {
            before
        }
    }
}

/// Where the run that begins with the `i`-th pick ends: before the first pick
/// after it that names another face.
pub open spec fn run_end(picks: Seq<Pick>, i: int) -> int
    decreases picks.len() - i,
{
    if 0 <= i && i + 1 < picks.len() && picks[i + 1].face == picks[i].face {
        run_end(picks, i + 1)
    } else {
        i + 1
    }
}

/// A run is not empty, ends within the picks, names one face throughout, and
/// is followed by a pick that names another.
pub proof fn lemma_run_end(picks: Seq<Pick>, i: int)
    requires
        0 <= i < picks.len(),
    ensures
        i < run_end(picks, i) <= picks.len(),
        forall|k: int| i <= k < run_end(picks, i) ==> (#[trigger] picks[k]).face == picks[i].face,
        run_end(picks, i) < picks.len() ==> picks[run_end(picks, i)].face != picks[i].face,
    decreases picks.len() - i,
{
    if i + 1 < picks.len() && picks[i + 1].face == picks[i].face {
        lemma_run_end(picks, i + 1);
    }
}

/// How far the picks from the `i`-th up to the `j`-th advance together, at the
/// font size `size` in a face with `upem` font units to the font size.
pub open spec fn advance_sum(picks: Seq<Pick>, size: int, upem: int, i: int, j: int) -> int
    decreases j - i,
{
    if j <= i {
        0
    } else {
        advance_sum(picks, size, upem, i, j - 1) + scaled(picks[j - 1].advance as int, size, upem)
    }
}

/// A run of picks that name one face, measured.
pub struct Run {
    /// Whether the run could be shaped. A run that could not takes no room
    /// and gives no element.
    pub ok: bool,
    /// The index of the face.
    pub face: usize,
    /// The number of font units to the font size in the face.
    pub upem: int,
    /// The index of the first pick of the run.
    pub start: int,
    /// The index after the last pick of the run.
    pub end: int,
    /// How far the runs before this one advance together.
    pub x: int,
    /// How far the run advances.
    pub width: int,
    /// How far the run reaches above the baseline.
    pub height: int,
    /// How far the run reaches below the baseline.
    pub depth: int,
}

/// The run that begins with the `i`-th pick, after runs that advance by `x`
/// together. It can be shaped if its face is loaded and can be measured, and
/// if neither its height, nor its depth, nor what the text advances up to its
/// end exceeds `MAX_LEN`.
pub open spec fn run_at(faces: Seq<FontFace>, picks: Seq<Pick>, size: int, i: int, x: int) -> Run {
    let end = run_end(picks, i);
    let failed = Run { ok: false, face: 0, upem: 1, start: i, end, x, width: 0, height: 0, depth: 0 };
    match picks[i].face {
        Some(f) => if f < faces.len() && faces[f as int].usable() {
            let upem = faces[f as int].units_per_em as int;
            let width = advance_sum(picks, size, upem, i, end);
            let height = scaled(faces[f as int].ascender as int, size, upem);
            let depth = scaled(-faces[f as int].descender, size, upem);
            if x + width <= MAX_LEN && height <= MAX_LEN && depth <= MAX_LEN {
                Run { ok: true, face: f, upem, start: i, end, x, width, height, depth }
            } else {
                failed
            }
        } else {
            failed
        },
        None => failed,
    }
}

/// The runs from the `i`-th pick on, after runs that advance by `x` together.
pub open spec fn runs_from(faces: Seq<FontFace>, picks: Seq<Pick>, size: int, i: int, x: int) -> Seq<
    Run,
>
    decreases picks.len() - i,
{
    if i < 0 || i >= picks.len() {
        Seq::empty()
    } else {
        let run = run_at(faces, picks, size, i, x);
        proof {
            lemma_run_end(picks, i);
        }
        seq![run] + runs_from(faces, picks, size, run_end(picks, i), x + run.width)
    }
}

/// How far `runs` advance together.
pub open spec fn runs_width(runs: Seq<Run>) -> int
    decreases runs.len(),
{
    if runs.len() == 0 {
        0
    } else {
        runs_width(runs.drop_last()) + runs.last().width
    }
}

/// How far the highest of `runs` reaches above the baseline.
pub open spec fn runs_height(runs: Seq<Run>) -> int
    decreases runs.len(),
{
    if runs.len() == 0 {
        0
    } else {
        max_int(runs_height(runs.drop_last()), runs.last().height)
    }
}

/// How far the deepest of `runs` reaches below the baseline.
pub open spec fn runs_depth(runs: Seq<Run>) -> int
    decreases runs.len(),
{
    if runs.len() == 0 {
        0
    } else {
        max_int(runs_depth(runs.drop_last()), runs.last().depth)
    }
}

/// Those of `runs` that could be shaped, in their order.
pub open spec fn shaped_runs(runs: Seq<Run>) -> Seq<Run>
    decreases runs.len(),
{
    if runs.len() == 0 {
        Seq::empty()
    } else if runs.last().ok {
        shaped_runs(runs.drop_last()).push(runs.last())
    } else {
        shaped_runs(runs.drop_last())
    }
}

/// A diagnostic for each of `runs` that could not be shaped.
pub open spec fn failures(runs: Seq<Run>) -> Seq<Diagnostic>
    decreases runs.len(),
{
    if runs.len() == 0 {
        Seq::empty()
    } else if runs.last().ok {
        failures(runs.drop_last())
    } else {
        failures(runs.drop_last()).push(
            Diagnostic { kind: DiagnosticKind::ShapingFailure, span: None },
        )
    }
}

/// The element of a run: the glyphs of its picks and how far each advances.
pub open spec fn run_text(picks: Seq<Pick>, size: i64, dir: Dir, run: Run) -> TextView {
    TextView {
        face: run.face,
        size,
        dir,
        glyphs: Seq::new((run.end - run.start) as nat, |k: int| picks[run.start + k].glyph),
        advances: Seq::new(
            (run.end - run.start) as nat,
            |k: int| scaled(picks[run.start + k].advance as int, size as int, run.upem) as i64,
        ),
    }
}

/// Where the baseline of a run starts in a layout that is `width` wide and
/// whose baseline lies `height` below its top: after the runs before it along
/// a direction in which coordinates grow, and as far from the other edge
/// along a direction against which they fall.
pub open spec fn run_pos(run: Run, dir: Dir, width: int, height: int) -> Point {
    Point {
        x: if dir.spec_is_positive() {
            run.x as i64
        } else {
            (width - run.x - run.width) as i64
        },
        y: height as i64,
    }
}

/// What shaping gives, as a mathematical value.
pub struct ShapedView {
    pub layout: LayoutView,
    pub feedback: Seq<Diagnostic>,
}

/// What shaping `text` gives: a layout as wide as the runs advance together,
/// as high and as deep as the highest and the deepest run, with one element
/// for each run that could be shaped; and a diagnostic for each character that
/// no face covers, then one for each run that could not be shaped.
pub open spec fn shaped(text: Seq<char>, faces: Seq<FontFace>, style: TextStyle, dir: Dir) -> ShapedView {
    let picks = picks_of(faces, style.families(), style.variant, text);
    let runs = runs_from(faces, picks, style.size as int, 0, 0);
    let width = runs_width(runs);
    let height = runs_height(runs);
    let kept = shaped_runs(runs);
    ShapedView {
        layout: LayoutView {
            dim: Dim { width: width as i64, height: height as i64, depth: runs_depth(runs) as i64 },
            elements: Seq::new(
                kept.len(),
                |k: int|
                    (
                        run_pos(kept[k], dir, width, height),
                        ElementView::Text(run_text(picks, style.size, dir, kept[k])),
                    ),
            ),
        },
        feedback: missing_upto(faces, style.families(), style.variant, text, text.len() as int)
            + failures(runs),
    }
}

/// Whether `pass` is what shaping `text` gives.
pub open spec fn shapes(
    pass: Pass<Layout>,
    text: Seq<char>,
    faces: Seq<FontFace>,
    style: TextStyle,
    dir: Dir,
) -> bool {
    let view = shaped(text, faces, style, dir);
    &&& pass.output@ == view.layout
    &&& pass.feedback@ == view.feedback
}

/// A length in font units is no less than nothing at any font size.
proof fn lemma_scaled_nonneg(v: int, size: int, upem: int)
    requires
        0 <= v,
        0 <= size,
        0 < upem,
    ensures
        0 <= scaled(v, size, upem),
{
    assert(0 <= (v * size) / upem) by (nonlinear_arith)
        requires
            0 <= v,
            0 <= size,
            0 < upem,
    ;
}

/// More picks advance no less.
proof fn lemma_advance_sum_mono(picks: Seq<Pick>, size: int, upem: int, i: int, a: int, b: int)
    requires
        i <= a <= b,
        0 <= size,
        0 < upem,
    ensures
        0 <= advance_sum(picks, size, upem, i, a) <= advance_sum(picks, size, upem, i, b),
    decreases b - i,
{
    if i < b {
        lemma_scaled_nonneg(picks[b - 1].advance as int, size, upem);
        if a < b {
            lemma_advance_sum_mono(picks, size, upem, i, a, b - 1);
        } else {
            lemma_advance_sum_mono(picks, size, upem, i, a - 1, b - 1);
        }
    }
}

/// Picks the glyph of every character of `text` and reports the characters
/// that no face covers.
fn pick_all(text: &str, loader: &FontLoader, style: &TextStyle) -> (r: (Vec<Pick>, Feedback))
    ensures
        r.0@ == picks_of(loader@, style.families(), style.variant, text@),
        r.1@ == missing_upto(loader@, style.families(), style.variant, text@, text@.len() as int),
{
    let ghost faces = loader@;
    let ghost families = style.families();
    let mut picks: Vec<Pick> = Vec::new();
    let mut feedback: Feedback = Feedback::new();
    for c in it: text.chars()
        invariant
            it.seq() == text@,
            faces == loader@,
            families == style.families(),
            picks@ == picks_of(faces, families, style.variant, text@.subrange(0, it.index())),
            feedback@ == missing_upto(faces, families, style.variant, text@, it.index()),
    {
        let pick: Pick = pick_glyph(loader, style, c);
        if pick.missing {
            feedback.push(Diagnostic::new(DiagnosticKind::MissingGlyph(c), None));
        }
        picks.push(pick);
        assert(picks@ == picks_of(
            faces,
            families,
            style.variant,
            text@.subrange(0, it.index() + 1),
        ));
    }
    assert(text@.subrange(0, text@.len() as int) == text@);
    (picks, feedback)
}

/// Measures the run that begins with the `i`-th pick, after runs that advance
/// by `x` together, and makes its element. Gives the index at which the run
/// ends, the element if the run could be shaped, and how far the run
/// advances and reaches above and below the baseline.
#[verifier::loop_isolation(false)]
fn measure_run(
    loader: &FontLoader,
    picks: &Vec<Pick>,
    size: i64,
    dir: Dir,
    i: usize,
    x: i64,
) -> (r: (usize, Option<ShapedText>, i64, i64, i64))
    requires
        i < picks@.len(),
        0 <= size <= MAX_LEN,
        0 <= x <= MAX_LEN,
    ensures
        r.0 == run_at(loader@, picks@, size as int, i as int, x as int).end,
        i < r.0 <= picks@.len(),
        r.1 is Some == run_at(loader@, picks@, size as int, i as int, x as int).ok,
        r.1 matches Some(text) ==> text@ == run_text(
            picks@,
            size,
            dir,
            run_at(loader@, picks@, size as int, i as int, x as int),
        ),
        r.2 == run_at(loader@, picks@, size as int, i as int, x as int).width,
        r.3 == run_at(loader@, picks@, size as int, i as int, x as int).height,
        r.4 == run_at(loader@, picks@, size as int, i as int, x as int).depth,
        0 <= r.2 <= MAX_LEN - x,
        0 <= r.3 <= MAX_LEN,
        0 <= r.4 <= MAX_LEN,
{
    let ghost run = run_at(loader@, picks@, size as int, i as int, x as int);
    let n: usize = picks.len();
    let face: Option<usize> = picks[i].face;
    let mut end: usize = i + 1;
    while end < n && same_face(picks[end].face, face)
        invariant
            n == picks@.len(),
            i < end <= n,
            face == picks@[i as int].face,
            picks@[end - 1].face == face,
            run_end(picks@, i as int) == run_end(picks@, end - 1),
        decreases n - end,
    {
        end += 1;
    }
    assert(run.end == end);
    match face {
        None => (end, None, 0, 0, 0),
        Some(f) => {
            if f >= loader.len() {
                return (end, None, 0, 0, 0);
            }
            let fc: &FontFace = loader.get_by_id(f);
            if !fc.is_usable() {
                return (end, None, 0, 0, 0);
            }
            let upem: i64 = fc.units_per_em as i64;
            let height: i64 = scale(fc.ascender as i64, size, upem);
            let depth: i64 = scale(-(fc.descender as i64), size, upem);
            if height > MAX_LEN || depth > MAX_LEN {
                return (end, None, 0, 0, 0);
            }
            let mut width: i64 = 0;
            let mut glyphs: Vec<u16> = Vec::new();
            let mut advances: Vec<i64> = Vec::new();
            let mut k: usize = i;
            while k < end
                invariant
                    i <= k <= end <= picks@.len(),
                    0 <= size <= MAX_LEN,
                    0 < upem <= MAX_UNITS,
                    0 <= x <= MAX_LEN,
                    width == advance_sum(picks@, size as int, upem as int, i as int, k as int),
                    0 <= width <= MAX_LEN - x,
                    glyphs@ == Seq::new((k - i) as nat, |m: int| picks@[i + m].glyph),
                    advances@ == Seq::new(
                        (k - i) as nat,
                        |m: int| scaled(picks@[i + m].advance as int, size as int, upem as int) as i64,
                    ),
                decreases end - k,
            {
                let advance: i64 = scale(picks[k].advance as i64, size, upem);
                if advance > MAX_LEN - x - width {
                    proof {
                        lemma_advance_sum_mono(
                            picks@,
                            size as int,
                            upem as int,
                            i as int,
                            k + 1,
                            end as int,
                        );
                    }
                    return (end, None, 0, 0, 0);
                }
                width = width + advance;
                glyphs.push(picks[k].glyph);
                advances.push(advance);
                k += 1;
                assert(glyphs@ == Seq::new((k - i) as nat, |m: int| picks@[i + m].glyph));
                assert(advances@ == Seq::new(
                    (k - i) as nat,
                    |m: int| scaled(picks@[i + m].advance as int, size as int, upem as int) as i64,
                ));
            }
            let text = ShapedText { face: f, size, dir, glyphs, advances };
            (end, Some(text), width, height, depth)
        },
    }
}

/// Where a run that could be shaped starts and how far it advances.
#[derive(Clone, Copy)]
struct Placed {
    x: i64,
    width: i64,
}

/// Shapes `text`: turns it into a layout of glyph runs.
///
/// Each character takes its glyph from the first family of the style that has
/// a loaded face covering it; a character that no face covers takes the glyph
/// for missing characters of the first family with a face and is reported.
/// Characters that follow one another and take their glyphs from one face form
/// a run. A run becomes one element, positioned by the start of its baseline,
/// which holds its glyphs and how far each advances at the font size. The
/// layout is as wide as the runs advance together, and as high and as deep as
/// the highest and the deepest face among them reaches at the font size. A
/// run whose face is not loaded or cannot be measured, or with which the text
/// would reach beyond `MAX_LEN`, takes no room, gives no element and is
/// reported.
pub fn shape(text: &str, opts: ShapeOptions) -> (pass: Pass<Layout>)
    requires
        opts.style.wf(),
    ensures
        shapes(pass, text@, opts.loader@, *opts.style, opts.dir),
        pass.output@.wf(),
        pass.output@.contained(),
        text@.len() == 0 ==> pass.output@ == LayoutView::empty(Dim::spec_zero()) && pass.feedback@.len()
            == 0,
{
    let loader: &FontLoader = opts.loader;
    let style: &TextStyle = opts.style;
    let dir: Dir = opts.dir;
    let size: i64 = style.size;
    let ghost faces = loader@;
    let ghost view = shaped(text@, faces, *style, dir);
    let (picks, feedback) = pick_all(text, loader, style);
    let mut feedback: Feedback = feedback;
    let ghost missing = feedback@;
    let ghost runs = runs_from(faces, picks@, size as int, 0, 0);
    let n: usize = picks.len();
    let mut texts: Vec<ShapedText> = Vec::new();
    let mut places: Vec<Placed> = Vec::new();
    let mut x: i64 = 0;
    let mut height: i64 = 0;
    let mut depth: i64 = 0;
    let mut i: usize = 0;
    let ghost mut built: Seq<Run> = Seq::empty();
    while i < n
        invariant
            n == picks@.len(),
            i <= n,
            faces == loader@,
            0 <= size <= MAX_LEN,
            runs == runs_from(faces, picks@, size as int, 0, 0),
            runs == built + runs_from(faces, picks@, size as int, i as int, x as int),
            x == runs_width(built),
            height == runs_height(built),
            depth == runs_depth(built),
            0 <= x <= MAX_LEN,
            0 <= height <= MAX_LEN,
            0 <= depth <= MAX_LEN,
            texts@.len() == shaped_runs(built).len(),
            places@.len() == shaped_runs(built).len(),
            forall|k: int|
                0 <= k < texts@.len() ==> {
                    &&& (#[trigger] texts@[k])@ == run_text(picks@, size, dir, shaped_runs(built)[k])
                    &&& places@[k].x == shaped_runs(built)[k].x
                    &&& places@[k].width == shaped_runs(built)[k].width
                    &&& 0 <= places@[k].x
                    &&& 0 <= places@[k].width
                    &&& places@[k].x + places@[k].width <= x
                },
            feedback@ == missing + failures(built),
        decreases n - i,
    {
        let ghost run = run_at(faces, picks@, size as int, i as int, x as int);
        let ghost before = built;
        let (end, text, width, above, below) = measure_run(loader, &picks, size, dir, i, x);
        proof {
            built = before.push(run);
            assert(before.push(run).drop_last() == before);
            assert(runs == built + runs_from(
                faces,
                picks@,
                size as int,
                end as int,
                x + run.width,
            ));
        }
        match text {
            Some(text) => {
                texts.push(text);
                places.push(Placed { x, width });
                x = x + width;
                height = max_len(height, above);
                depth = max_len(depth, below);
            },
            None => {
                feedback.push(Diagnostic::new(DiagnosticKind::ShapingFailure, None));
            },
        }
        i = end;
    }
    assert(runs == built);
    let ghost kept = shaped_runs(runs);
    let mut layout: Layout = Layout::new(Dim::new(x, height, depth));
    let mut k: usize = 0;
    let total: usize = texts.len();
    for text in it: texts
        invariant
            it.seq() == texts@,
            k == it.index(),
            total == texts@.len(),
            places@.len() == texts@.len(),
            places@.len() == kept.len(),
            0 <= x <= MAX_LEN,
            0 <= height <= MAX_LEN,
            0 <= depth <= MAX_LEN,
            x == runs_width(runs),
            height == runs_height(runs),
            forall|m: int|
                0 <= m < texts@.len() ==> {
                    &&& (#[trigger] texts@[m])@ == run_text(picks@, size, dir, kept[m])
                    &&& places@[m].x == kept[m].x
                    &&& places@[m].width == kept[m].width
                    &&& 0 <= places@[m].x
                    &&& 0 <= places@[m].width
                    &&& places@[m].x + places@[m].width <= x
                },
            layout@.dim == (Dim { width: x, height, depth }),
            layout@.elements.len() == k,
            forall|m: int|
                0 <= m < k ==> {
                    &&& (#[trigger] layout@.elements[m]).0 == run_pos(
                        kept[m],
                        dir,
                        x as int,
                        height as int,
                    )
                    &&& layout@.elements[m].1 == ElementView::Text(
                        run_text(picks@, size, dir, kept[m]),
                    )
                    &&& 0 <= layout@.elements[m].0.x <= x
                    &&& layout@.elements[m].0.y == height
                },
    {
        let place: Placed = places[k];
        let at: i64 = if dir.is_positive() {
            place.x
        } else {
            x - place.x - place.width
        };
        layout.push(Point::new(at, height), LayoutElement::Text(text));
        k += 1;
    }
    proof {
        assert(layout@.elements =~= view.layout.elements);
        if text@.len() == 0 {
            assert(layout@.elements =~= Seq::empty());
            assert(runs_width(runs) == 0);
        }
    }
    Pass::new(layout, feedback)
}

/// Shaping is a function of the text, the loaded faces, the style and the
/// direction: what two shapings of the same give is the same.
pub proof fn shaping_is_deterministic(
    a: Pass<Layout>,
    b: Pass<Layout>,
    text: Seq<char>,
    faces: Seq<FontFace>,
    style: TextStyle,
    dir: Dir,
)
    requires
        shapes(a, text, faces, style, dir),
        shapes(b, text, faces, style, dir),
    ensures
        a.output@ == b.output@,
        a.feedback@ == b.feedback@,
{
}

/// Every run reaches no less than nothing and no more than `MAX_LEN` above
/// and below the baseline, and advances no less than nothing.
pub proof fn lemma_runs_bounded(faces: Seq<FontFace>, picks: Seq<Pick>, size: int, i: int, x: int)
    requires
        0 <= size,
    ensures
        forall|k: int|
            0 <= k < runs_from(faces, picks, size, i, x).len() ==> {
                let run = #[trigger] runs_from(faces, picks, size, i, x)[k];
                &&& 0 <= run.width
                &&& 0 <= run.height <= MAX_LEN
                &&& 0 <= run.depth <= MAX_LEN
            },
    decreases picks.len() - i,
{
    if 0 <= i < picks.len() {
        let run = run_at(faces, picks, size, i, x);
        let end = run_end(picks, i);
        lemma_run_end(picks, i);
        lemma_runs_bounded(faces, picks, size, end, x + run.width);
        if run.ok {
            let face = faces[run.face as int];
            lemma_advance_sum_mono(picks, size, run.upem, i, i, end);
            lemma_scaled_nonneg(face.ascender as int, size, run.upem);
            lemma_scaled_nonneg(-face.descender, size, run.upem);
        }
        let rest = runs_from(faces, picks, size, end, x + run.width);
        let all = runs_from(faces, picks, size, i, x);
        assert forall|k: int| 0 <= k < all.len() implies {
            let r = #[trigger] all[k];
            &&& 0 <= r.width
            &&& 0 <= r.height <= MAX_LEN
            &&& 0 <= r.depth <= MAX_LEN
        } by {
            if k > 0 {
                assert(all[k] == rest[k - 1]);
            }
        }
    }
}

/// No run reaches further above or below the baseline than the highest and
/// the deepest of the runs.
pub proof fn lemma_runs_extent(runs: Seq<Run>, k: int)
    requires
        0 <= k < runs.len(),
    ensures
        runs[k].height <= runs_height(runs),
        runs[k].depth <= runs_depth(runs),
    decreases runs.len(),
{
    if k < runs.len() - 1 {
        lemma_runs_extent(runs.drop_last(), k);
    }
}

/// The highest and the deepest of runs that are bounded are bounded.
proof fn lemma_runs_extent_bounded(runs: Seq<Run>)
    requires
        forall|k: int|
            0 <= k < runs.len() ==> 0 <= (#[trigger] runs[k]).height <= MAX_LEN && 0
                <= runs[k].depth <= MAX_LEN,
    ensures
        0 <= runs_height(runs) <= MAX_LEN,
        0 <= runs_depth(runs) <= MAX_LEN,
    decreases runs.len(),
{
    if runs.len() > 0 {
        let init = runs.drop_last();
        assert forall|k: int| 0 <= k < init.len() implies 0 <= (#[trigger] init[k]).height
            <= MAX_LEN && 0 <= init[k].depth <= MAX_LEN by {
            assert(init[k] == runs[k]);
        }
        lemma_runs_extent_bounded(init);
    }
}

/// A text with a run that reaches above or below the baseline is shaped into
/// a layout that has height or depth.
pub proof fn shaped_text_has_extent(
    text: Seq<char>,
    faces: Seq<FontFace>,
    style: TextStyle,
    dir: Dir,
    k: int,
)
    requires
        style.wf(),
        0 <= k < runs_from(
            faces,
            picks_of(faces, style.families(), style.variant, text),
            style.size as int,
            0,
            0,
        ).len(),
        runs_from(
            faces,
            picks_of(faces, style.families(), style.variant, text),
            style.size as int,
            0,
            0,
        )[k].height + runs_from(
            faces,
            picks_of(faces, style.families(), style.variant, text),
            style.size as int,
            0,
            0,
        )[k].depth > 0,
    ensures
        shaped(text, faces, style, dir).layout.dim.height + shaped(
            text,
            faces,
            style,
            dir,
        ).layout.dim.depth > 0,
{
    let picks = picks_of(faces, style.families(), style.variant, text);
    let runs = runs_from(faces, picks, style.size as int, 0, 0);
    lemma_runs_bounded(faces, picks, style.size as int, 0, 0);
    lemma_runs_extent_bounded(runs);
    lemma_runs_extent(runs, k);
}

/// A text whose characters all take their glyphs from one face that can be
/// measured is shaped, if it stays within `MAX_LEN`, into a layout that is as
/// wide as the glyphs advance together at the font size and as high and as
/// deep as the face reaches above and below the baseline at the font size,
/// with one element, whose baseline starts at the left edge.
pub proof fn single_run_metrics(
    text: Seq<char>,
    faces: Seq<FontFace>,
    style: TextStyle,
    dir: Dir,
    face: usize,
)
    requires
        style.wf(),
        text.len() > 0,
        face < faces.len(),
        faces[face as int].usable(),
        forall|i: int|
            0 <= i < text.len() ==> (#[trigger] pick_of(
                faces,
                style.families(),
                style.variant,
                text[i],
            )).face == Some(face),
        run_at(
            faces,
            picks_of(faces, style.families(), style.variant, text),
            style.size as int,
            0,
            0,
        ).ok,
    ensures
        ({
            let view = shaped(text, faces, style, dir).layout;
            let picks = picks_of(faces, style.families(), style.variant, text);
            let upem = faces[face as int].units_per_em as int;
            &&& view.dim.width == advance_sum(
                picks,
                style.size as int,
                upem,
                0,
                text.len() as int,
            )
            &&& view.dim.height == scaled(
                faces[face as int].ascender as int,
                style.size as int,
                upem,
            )
            &&& view.dim.depth == scaled(-faces[face as int].descender, style.size as int, upem)
            &&& view.elements.len() == 1
            &&& view.elements[0].0 == (Point { x: 0, y: view.dim.height })
        }),
{
    let picks = picks_of(faces, style.families(), style.variant, text);
    let size = style.size as int;
    let n = text.len() as int;
    lemma_same_face_run(picks, 0);
    let run = run_at(faces, picks, size, 0, 0);
    assert(run.end == n);
    let runs = runs_from(faces, picks, size, 0, 0);
    assert(runs_from(faces, picks, size, n, run.width) == Seq::<Run>::empty());
    assert(runs == seq![run]);
    assert(runs.drop_last() == Seq::<Run>::empty());
    assert(runs.last() == run);
    assert(runs_width(runs.drop_last()) == 0);
    assert(runs_height(runs.drop_last()) == 0);
    assert(runs_depth(runs.drop_last()) == 0);
    assert(shaped_runs(runs.drop_last()) == Seq::<Run>::empty());
    assert(shaped_runs(runs) == seq![run]);
    lemma_runs_bounded(faces, picks, size, 0, 0);
    assert(runs[0] == run);
}

/// Picks that all name one face form one run.
proof fn lemma_same_face_run(picks: Seq<Pick>, i: int)
    requires
        0 <= i < picks.len(),
        forall|k: int| 0 <= k < picks.len() ==> (#[trigger] picks[k]).face == picks[0].face,
    ensures
        run_end(picks, i) == picks.len(),
    decreases picks.len() - i,
{
    if i + 1 < picks.len() {
        lemma_same_face_run(picks, i + 1);
    }
}

} // verus!
