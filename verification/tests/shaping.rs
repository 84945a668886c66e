use layout_engine::shaping::pick_glyph;
use layout_engine::{
    shape, Diagnostic, DiagnosticKind, Dim, Dir, FontFace, FontLoader, FontVariant, Glyph, Layout,
    LayoutElement, Point, ShapeOptions, ShapedText, TextStyle,
};

const PT: i64 = 10_000;

fn regular() -> FontVariant {
    FontVariant { italic: false, bold: false }
}

fn face(family: &str, chars: &str, first_id: u16, advance: u16) -> FontFace {
    let glyphs = chars
        .chars()
        .enumerate()
        .map(|(i, c)| Glyph { c, id: first_id + i as u16, advance })
        .collect();
    FontFace {
        family: family.to_string(),
        variant: regular(),
        units_per_em: 10,
        ascender: 8,
        descender: -2,
        notdef_advance: 6,
        glyphs,
    }
}

fn mono() -> FontFace {
    face("mono", " Hithrex", 1, 5)
}

fn style(families: &[&str]) -> TextStyle {
    TextStyle {
        family: families.iter().map(|f| f.to_string()).collect(),
        variant: regular(),
        size: 10 * PT,
        features: vec![],
        par_spacing: 0,
    }
}

fn loader(faces: Vec<FontFace>) -> FontLoader {
    let mut loader = FontLoader::new();
    for f in faces {
        loader.add(f);
    }
    loader
}

fn text_of(layout: &Layout, k: usize) -> ShapedText {
    match &layout.elements[k].1 {
        LayoutElement::Text(t) => t.clone(),
        other => panic!("not text: {:?}", other),
    }
}

#[test]
fn loader_finds_first_face_of_family_and_variant() {
    let mut bold = mono();
    bold.variant = FontVariant { italic: false, bold: true };
    let mut l = FontLoader::new();
    assert_eq!(l.add(face("serif", "a", 1, 5)), 0);
    assert_eq!(l.add(bold), 1);
    assert_eq!(l.add(mono()), 2);
    assert_eq!(l.add(mono()), 3);
    assert_eq!(l.len(), 4);
    assert_eq!(l.load(&"mono".to_string(), regular()), Some(2));
    assert_eq!(l.load(&"mono".to_string(), FontVariant { italic: false, bold: true }), Some(1));
    assert_eq!(l.load(&"serif".to_string(), regular()), Some(0));
    assert_eq!(l.load(&"sans".to_string(), regular()), None);
    assert_eq!(l.load(&"mono".to_string(), FontVariant { italic: true, bold: false }), None);
    assert_eq!(l.get_by_id(2), &mono());
}

#[test]
fn face_glyph_takes_first_entry() {
    let mut f = mono();
    f.glyphs.push(Glyph { c: 'H', id: 99, advance: 9 });
    assert_eq!(f.glyph('H'), Some(Glyph { c: 'H', id: 2, advance: 5 }));
    assert_eq!(f.glyph('z'), None);
    assert!(f.is_usable());
}

#[test]
fn face_without_units_is_not_usable() {
    let mut f = mono();
    f.units_per_em = 0;
    assert!(!f.is_usable());
    let mut f = mono();
    f.ascender = -1;
    assert!(!f.is_usable());
    let mut f = mono();
    f.descender = 1;
    assert!(!f.is_usable());
}

#[test]
fn pick_falls_back_through_family_list() {
    let l = loader(vec![face("a", "x", 10, 5), face("b", "xy", 20, 7)]);
    let s = style(&["a", "b"]);
    let p = pick_glyph(&l, &s, 'x');
    assert_eq!((p.face, p.glyph, p.advance, p.missing), (Some(0), 10, 5, false));
    let p = pick_glyph(&l, &s, 'y');
    assert_eq!((p.face, p.glyph, p.advance, p.missing), (Some(1), 21, 7, false));
    let p = pick_glyph(&l, &s, 'z');
    assert_eq!((p.face, p.glyph, p.advance, p.missing), (Some(0), 0, 6, true));
    let p = pick_glyph(&l, &style(&["c"]), 'x');
    assert_eq!((p.face, p.glyph, p.advance, p.missing), (None, 0, 0, true));
    let p = pick_glyph(&l, &style(&["c", "b"]), 'z');
    assert_eq!((p.face, p.glyph, p.advance, p.missing), (Some(1), 0, 6, true));
}

#[test]
fn shape_hi_has_dim_10_8_2() {
    let l = loader(vec![mono()]);
    let s = style(&["mono"]);
    let pass = shape("Hi", ShapeOptions { loader: &l, style: &s, dir: Dir::LTR });
    assert!(pass.feedback.is_empty());
    let layout = pass.output;
    assert_eq!(layout.dim, Dim { width: 10 * PT, height: 8 * PT, depth: 2 * PT });
    assert_eq!(layout.elements.len(), 1);
    assert_eq!(layout.elements[0].0, Point { x: 0, y: 8 * PT });
    assert_eq!(
        text_of(&layout, 0),
        ShapedText {
            face: 0,
            size: 10 * PT,
            dir: Dir::LTR,
            glyphs: vec![2, 3],
            advances: vec![5 * PT, 5 * PT],
        }
    );
}

#[test]
fn shape_empty_text_is_empty_layout() {
    let l = loader(vec![mono()]);
    let s = style(&["mono"]);
    let pass = shape("", ShapeOptions { loader: &l, style: &s, dir: Dir::LTR });
    assert!(pass.feedback.is_empty());
    assert_eq!(pass.output, Layout::new(Dim::zero()));
}

#[test]
fn shape_scales_and_rounds_down() {
    let mut f = mono();
    f.units_per_em = 1000;
    f.ascender = 800;
    f.descender = -200;
    f.glyphs = vec![Glyph { c: 'a', id: 1, advance: 333 }];
    let l = loader(vec![f]);
    let mut s = style(&["mono"]);
    s.size = 10;
    let pass = shape("aaa", ShapeOptions { loader: &l, style: &s, dir: Dir::LTR });
    // 333 * 10 / 1000 = 3 for each glyph, 800 * 10 / 1000 = 8, 200 * 10 / 1000 = 2
    assert_eq!(pass.output.dim, Dim { width: 9, height: 8, depth: 2 });
    assert_eq!(text_of(&pass.output, 0).advances, vec![3, 3, 3]);
}

#[test]
fn shape_splits_runs_by_face() {
    let mut tall = face("b", "y", 20, 7);
    tall.ascender = 9;
    tall.descender = -4;
    let l = loader(vec![face("a", "x", 10, 5), tall]);
    let s = style(&["a", "b"]);
    let pass = shape("xxyyx", ShapeOptions { loader: &l, style: &s, dir: Dir::LTR });
    assert!(pass.feedback.is_empty());
    let layout = pass.output;
    assert_eq!(layout.dim, Dim { width: 29 * PT, height: 9 * PT, depth: 4 * PT });
    assert_eq!(layout.elements.len(), 3);
    assert_eq!(layout.elements[0].0, Point { x: 0, y: 9 * PT });
    assert_eq!(layout.elements[1].0, Point { x: 10 * PT, y: 9 * PT });
    assert_eq!(layout.elements[2].0, Point { x: 24 * PT, y: 9 * PT });
    assert_eq!(text_of(&layout, 0).glyphs, vec![10, 10]);
    assert_eq!(text_of(&layout, 1).glyphs, vec![20, 20]);
    assert_eq!(text_of(&layout, 1).face, 1);
    assert_eq!(text_of(&layout, 1).advances, vec![7 * PT, 7 * PT]);
    assert_eq!(text_of(&layout, 2).glyphs, vec![10]);
}

#[test]
fn shape_right_to_left_mirrors_runs() {
    let l = loader(vec![face("a", "x", 10, 5), face("b", "y", 20, 7)]);
    let s = style(&["a", "b"]);
    let pass = shape("xxy", ShapeOptions { loader: &l, style: &s, dir: Dir::RTL });
    let layout = pass.output;
    assert_eq!(layout.dim.width, 17 * PT);
    assert_eq!(layout.elements[0].0, Point { x: 7 * PT, y: 8 * PT });
    assert_eq!(layout.elements[1].0, Point { x: 0, y: 8 * PT });
    assert_eq!(text_of(&layout, 0).dir, Dir::RTL);
}

#[test]
fn shape_reports_missing_glyph() {
    let l = loader(vec![mono()]);
    let s = style(&["mono"]);
    let pass = shape("Hzi", ShapeOptions { loader: &l, style: &s, dir: Dir::LTR });
    assert_eq!(
        pass.feedback.diagnostics,
        vec![Diagnostic { kind: DiagnosticKind::MissingGlyph('z'), span: None }]
    );
    assert!(pass.feedback.has(DiagnosticKind::MissingGlyph('z')));
    assert!(!pass.feedback.has(DiagnosticKind::ShapingFailure));
    let layout = pass.output;
    assert_eq!(layout.elements.len(), 1);
    assert_eq!(text_of(&layout, 0).glyphs, vec![2, 0, 3]);
    assert_eq!(text_of(&layout, 0).advances, vec![5 * PT, 6 * PT, 5 * PT]);
    assert_eq!(layout.dim.width, 16 * PT);
}

#[test]
fn shape_without_any_face_fails_the_run() {
    let l = loader(vec![mono()]);
    let s = style(&["other"]);
    let pass = shape("Hi", ShapeOptions { loader: &l, style: &s, dir: Dir::LTR });
    assert_eq!(
        pass.feedback.diagnostics,
        vec![
            Diagnostic { kind: DiagnosticKind::MissingGlyph('H'), span: None },
            Diagnostic { kind: DiagnosticKind::MissingGlyph('i'), span: None },
            Diagnostic { kind: DiagnosticKind::ShapingFailure, span: None },
        ]
    );
    assert_eq!(pass.output, Layout::new(Dim::zero()));
}

#[test]
fn shape_with_corrupt_face_leaves_run_empty() {
    let mut broken = face("b", "y", 20, 7);
    broken.units_per_em = 0;
    let l = loader(vec![face("a", "x", 10, 5), broken]);
    let s = style(&["a", "b"]);
    let pass = shape("xyx", ShapeOptions { loader: &l, style: &s, dir: Dir::LTR });
    assert_eq!(
        pass.feedback.diagnostics,
        vec![Diagnostic { kind: DiagnosticKind::ShapingFailure, span: None }]
    );
    let layout = pass.output;
    assert_eq!(layout.dim, Dim { width: 10 * PT, height: 8 * PT, depth: 2 * PT });
    assert_eq!(layout.elements.len(), 2);
    assert_eq!(layout.elements[0].0.x, 0);
    assert_eq!(layout.elements[1].0.x, 5 * PT);
}

#[test]
fn shape_run_beyond_limit_fails() {
    let mut wide = mono();
    wide.units_per_em = 1;
    wide.glyphs = vec![Glyph { c: 'w', id: 1, advance: 60000 }];
    wide.ascender = 1;
    wide.descender = -1;
    let l = loader(vec![wide]);
    let mut s = style(&["mono"]);
    s.size = 1 << 30;
    let pass = shape("w", ShapeOptions { loader: &l, style: &s, dir: Dir::LTR });
    assert!(pass.feedback.has(DiagnosticKind::ShapingFailure));
    assert_eq!(pass.output, Layout::new(Dim::zero()));
}

#[test]
fn shape_is_deterministic() {
    let l = loader(vec![face("a", "x", 10, 5), face("b", "y", 20, 7)]);
    let s = style(&["a", "b"]);
    let a = shape("xyzzy", ShapeOptions { loader: &l, style: &s, dir: Dir::LTR });
    let b = shape("xyzzy", ShapeOptions { loader: &l, style: &s, dir: Dir::LTR });
    assert_eq!(a, b);
}
