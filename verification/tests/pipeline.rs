use layout_engine::{
    layout, Diagnostic, DiagnosticKind, Dim, Dir, FontFace, FontLoader, FontVariant, Glyph,
    Layout, LayoutElement, LayoutStyle, PageStyle, Pass, Point, Rect, ShapedText, Sides, Size,
    Span, Spanned, State, SyntaxNode, SyntaxTree, TextStyle,
};

const PT: i64 = 10_000;

fn loader() -> FontLoader {
    let glyphs = " Hitherxabcd"
        .chars()
        .enumerate()
        .map(|(i, c)| Glyph { c, id: 1 + i as u16, advance: 5 })
        .collect();
    let mut loader = FontLoader::new();
    loader.add(FontFace {
        family: "mono".to_string(),
        variant: FontVariant { italic: false, bold: false },
        units_per_em: 10,
        ascender: 8,
        descender: -2,
        notdef_advance: 5,
        glyphs,
    });
    loader
}

fn state(par_spacing: i64) -> State<()> {
    State {
        scope: (),
        style: LayoutStyle {
            page: PageStyle {
                size: Size::new(100 * PT, 100 * PT),
                margins: Sides::uniform(10 * PT),
            },
            text: TextStyle {
                family: vec!["mono".to_string()],
                variant: FontVariant { italic: false, bold: false },
                size: 10 * PT,
                features: vec![],
                par_spacing,
            },
        },
    }
}

/// The tree of a text: a text node for each word, a space node between the
/// words of a line, a paragraph break for each empty line.
fn tree(source: &str) -> SyntaxTree {
    let mut nodes = Vec::new();
    let mut at = 0;
    for (i, word) in source.split(' ').enumerate() {
        if i > 0 {
            nodes.push(Spanned::new(SyntaxNode::Space, Span::new(at - 1, at)));
        }
        let node = if word == "\n\n" {
            SyntaxNode::Parbreak
        } else {
            SyntaxNode::Text(word.to_string())
        };
        nodes.push(Spanned::new(node, Span::new(at, at + word.len())));
        at += word.len() + 1;
    }
    nodes
}

fn run(source: &str) -> Pass<Vec<Layout>> {
    layout(&tree(source), &loader(), state(5 * PT))
}

fn positions(page: &Layout) -> Vec<(i64, i64)> {
    page.elements.iter().map(|(p, _)| (p.x / PT, p.y / PT)).collect()
}

fn text_of(element: &LayoutElement) -> ShapedText {
    match element {
        LayoutElement::Text(t) => t.clone(),
        other => panic!("not text: {:?}", other),
    }
}

#[test]
fn default_style_is_a4_with_margins() {
    let style = LayoutStyle::default();
    assert_eq!(style.page.size, Size::new(5_952_800, 8_418_900));
    assert_eq!(style.page.margins, Sides::uniform(708_661));
    assert_eq!(style.page.margins(), Sides::uniform(708_661));
    assert_eq!(style.text.size, 110_000);
    assert_eq!(PageStyle::default(), style.page);
    assert_eq!(TextStyle::default(), style.text);
}

#[test]
fn empty_tree_gives_one_empty_page() {
    let pass = layout(&vec![], &loader(), state(0));
    assert!(pass.feedback.is_empty());
    assert_eq!(pass.output, vec![Layout::new(Dim::new(100 * PT, 100 * PT, 0))]);
}

#[test]
fn scenario_hi() {
    let pass = run("Hi");
    assert!(pass.feedback.is_empty());
    assert_eq!(pass.output.len(), 1);
    let page = &pass.output[0];
    assert_eq!(page.elements.len(), 1);
    assert_eq!(page.elements[0].0, Point::new(10 * PT, 18 * PT));
    let text = text_of(&page.elements[0].1);
    assert_eq!(text.glyphs, vec![2, 3]);
    assert_eq!(text.advances, vec![5 * PT, 5 * PT]);
    assert_eq!(text.dir, Dir::LTR);
}

#[test]
fn scenario_hi_there() {
    let pass = run("Hi there");
    assert!(pass.feedback.is_empty());
    assert_eq!(pass.output.len(), 1);
    let page = &pass.output[0];
    assert_eq!(positions(page), vec![(10, 18), (25, 18)]);
    let last = text_of(&page.elements[1].1);
    let end = page.elements[1].0.x + last.advances.iter().sum::<i64>();
    // eight characters of advance 5 from the left margin
    assert_eq!(end, 10 * PT + 8 * 5 * PT);
}

#[test]
fn scenario_soft_wrap_four_words() {
    // no two words of ten characters fit a line of sixteen
    let pass = run("xxxxxxxxxx xxxxxxxxxx xxxxxxxxxx xxxxxxxxxx");
    assert!(pass.feedback.is_empty());
    assert_eq!(pass.output.len(), 1);
    assert_eq!(positions(&pass.output[0]), vec![(10, 18), (10, 28), (10, 38), (10, 48)]);
}

#[test]
fn scenario_soft_wrap_three_lines() {
    // forty characters in lines of at most sixteen
    let pass = run("xxxxxxx xxxxxxxx xxxxxxx xxxxxxxx xxxxxx");
    assert!(pass.feedback.is_empty());
    assert_eq!(pass.output.len(), 1);
    assert_eq!(
        positions(&pass.output[0]),
        vec![(10, 18), (50, 18), (10, 28), (50, 28), (10, 38)]
    );
}

#[test]
fn scenario_page_break() {
    let words: Vec<&str> = (0..20).map(|_| "xxxxxxxxxx").collect();
    let pass = run(&words.join(" "));
    assert!(pass.feedback.is_empty());
    assert_eq!(pass.output.len(), 3);
    assert_eq!(pass.output[0].elements.len(), 8);
    assert_eq!(pass.output[1].elements.len(), 8);
    assert_eq!(pass.output[2].elements.len(), 4);
    let usable = Rect::new(10 * PT, 10 * PT, 90 * PT, 90 * PT);
    for page in &pass.output {
        assert_eq!(page.dim, Dim::new(100 * PT, 100 * PT, 0));
        // each line is 10 high: together no more than the 80 that are usable
        assert!(page.elements.len() as i64 * 10 * PT <= 80 * PT + 1);
        for (pos, _) in &page.elements {
            assert!(usable.contains_within(*pos, 1));
        }
    }
}

#[test]
fn scenario_parbreak() {
    let pass = run("Hi there \n\n Hi there");
    assert!(pass.feedback.is_empty());
    assert_eq!(pass.output.len(), 1);
    let page = &pass.output[0];
    assert_eq!(positions(page), vec![(10, 18), (25, 18), (10, 33), (25, 33)]);
    // the line height and the paragraph spacing
    assert_eq!(page.elements[2].0.y - page.elements[0].0.y, 10 * PT + 5 * PT);
}

#[test]
fn unknown_nodes_are_skipped_and_reported() {
    let nodes = vec![
        Spanned::new(SyntaxNode::Text("Hi".to_string()), Span::new(0, 2)),
        Spanned::new(SyntaxNode::ToggleItalic, Span::new(2, 3)),
        Spanned::new(SyntaxNode::Linebreak, Span::new(3, 4)),
        Spanned::new(SyntaxNode::Text("there".to_string()), Span::new(4, 9)),
        Spanned::new(SyntaxNode::ToggleBolder, Span::new(9, 10)),
    ];
    let pass = layout(&nodes, &loader(), state(0));
    assert_eq!(positions(&pass.output[0]), vec![(10, 18), (20, 18)]);
    assert_eq!(
        pass.feedback.diagnostics,
        vec![
            Diagnostic { kind: DiagnosticKind::UnknownNode, span: Some(Span::new(2, 3)) },
            Diagnostic { kind: DiagnosticKind::UnknownNode, span: Some(Span::new(3, 4)) },
            Diagnostic { kind: DiagnosticKind::UnknownNode, span: Some(Span::new(9, 10)) },
        ]
    );
}

#[test]
fn missing_glyphs_are_reported_with_span() {
    let pass = run("Hi zap");
    assert_eq!(
        pass.feedback.diagnostics,
        vec![
            Diagnostic { kind: DiagnosticKind::MissingGlyph('z'), span: Some(Span::new(3, 6)) },
            Diagnostic { kind: DiagnosticKind::MissingGlyph('p'), span: Some(Span::new(3, 6)) },
        ]
    );
    assert_eq!(positions(&pass.output[0]), vec![(10, 18), (25, 18)]);
    assert_eq!(text_of(&pass.output[0].elements[1].1).glyphs, vec![0, 9, 0]);
}

#[test]
fn word_wider_than_the_page_overflows() {
    let pass = run("Hi xxxxxxxxxxxxxxxxxxxx Hi");
    assert_eq!(
        pass.feedback.diagnostics,
        vec![Diagnostic { kind: DiagnosticKind::Overflow, span: Some(Span::new(3, 23)) }]
    );
    assert_eq!(pass.output.len(), 2);
    assert_eq!(positions(&pass.output[0]), vec![(10, 18)]);
    assert_eq!(positions(&pass.output[1]), vec![(10, 18), (10, 28)]);
}

#[test]
fn style_without_loaded_family_fails_shaping() {
    let mut s = state(0);
    s.style.text.family = vec!["serif".to_string()];
    let pass = layout(&tree("Hi"), &loader(), s);
    assert_eq!(
        pass.feedback.diagnostics,
        vec![
            Diagnostic { kind: DiagnosticKind::MissingGlyph('H'), span: Some(Span::new(0, 2)) },
            Diagnostic { kind: DiagnosticKind::MissingGlyph('i'), span: Some(Span::new(0, 2)) },
            Diagnostic { kind: DiagnosticKind::ShapingFailure, span: Some(Span::new(0, 2)) },
        ]
    );
    assert_eq!(pass.output, vec![Layout::new(Dim::new(100 * PT, 100 * PT, 0))]);
}

#[test]
fn pass_and_feedback_carry_diagnostics() {
    let ok = Pass::ok(3);
    assert_eq!(ok.output, 3);
    assert!(ok.feedback.is_empty());
    let mut f = layout_engine::Feedback::new();
    f.push(Diagnostic::new(DiagnosticKind::Overflow, None));
    let mut g = layout_engine::Feedback::new();
    g.push(Diagnostic::new(DiagnosticKind::UnknownNode, Some(Span::new(1, 2))));
    g.extend(&f);
    assert_eq!(g.len(), 2);
    assert!(g.has(DiagnosticKind::Overflow));
    assert!(!g.has(DiagnosticKind::ShapingFailure));
    let p = Pass::new(1, g.clone());
    assert_eq!(p.feedback, g);
}
