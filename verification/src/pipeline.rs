//! The pipeline: from a syntax tree to pages.

use vstd::prelude::*;
use crate::area::{Area, Areas, Overflow};
use crate::diag::{has_kind, Diagnostic, DiagnosticKind, Feedback, Pass, Span, Spanned};
use crate::font::{FontFace, FontLoader};
use crate::geom::Rect;
use crate::layout::{Layout, LayoutItem, LayoutView};
use crate::primitive::{Dir, GenAlign};
use crate::shaping::{shape, shaped, ShapeOptions};
use crate::stack::{
    regular_pages_stay_in_frame, stays_in, views, StackLayouter, StackOptions, StackState,
};
use crate::style::{LayoutStyle, TextStyle};
use crate::syntax::{SyntaxNode, SyntaxTree};

verus! {

/// The execution state.
#[derive(Clone, Debug, Default)]
pub struct State<S> {
    /// The scope which contains function definitions. The engine carries it
    /// and does not look into it.
    pub scope: S,
    /// The current style configuration.
    pub style: LayoutStyle,
}

/// The layouting environment.
pub struct Env<S> {
    /// The accumulated feedback.
    pub f: Feedback,
    /// The font loader to retrieve fonts from.
    pub loader: FontLoader,
    /// The current execution state. As long as the loaded faces are the same,
    /// layouting is a function of what is laid out and this state.
    pub state: State<S>,
}

/// `diagnostics`, each about `span`.
pub open spec fn about(diagnostics: Seq<Diagnostic>, span: Span) -> Seq<Diagnostic> {
    Seq::new(diagnostics.len(), |i: int| diagnostics[i].spec_at(Some(span)))
}

/// The area that a page of the style gives: the page but for its margins.
pub open spec fn page_area(style: LayoutStyle) -> Area {
    Area {
        size: style.page.size,
        usable: style.page.size.rect().spec_inset(style.page.margins),
        shape: None,
    }
}

/// How the pipeline stacks: from top to bottom, with the room of a space of
/// the text style between words and its paragraph spacing between
/// paragraphs.
pub open spec fn stack_options(faces: Seq<FontFace>, style: LayoutStyle) -> StackOptions {
    StackOptions {
        dir: Dir::TTB,
        space: shaped(seq![' '], faces, style.text, Dir::LTR).layout.dim,
        par_spacing: style.text.par_spacing,
    }
}

/// The state in which the pipeline starts: a layouter over a supply that
/// hands out the area of the page again and again.
pub open spec fn start_state(faces: Seq<FontFace>, style: LayoutStyle) -> StackState {
    StackState::start(seq![page_area(style)], Overflow::Spill, stack_options(faces, style))
}

/// The diagnostics that a node gives by itself, each about the span of the
/// node: those of shaping for text, one for a node of a kind that is not laid
/// out.
pub open spec fn node_notes(
    node: Spanned<SyntaxNode>,
    faces: Seq<FontFace>,
    style: TextStyle,
) -> Seq<Diagnostic> {
    match node.v {
        SyntaxNode::Text(text) => about(shaped(text@, faces, style, Dir::LTR).feedback, node.span),
        SyntaxNode::Space => Seq::empty(),
        SyntaxNode::Parbreak => Seq::empty(),
        _ => seq![Diagnostic { kind: DiagnosticKind::UnknownNode, span: Some(node.span) }],
    }
}

/// The diagnostics that the first `n` nodes of `tree` give by themselves.
pub open spec fn notes_upto(
    tree: Seq<Spanned<SyntaxNode>>,
    faces: Seq<FontFace>,
    style: TextStyle,
    n: int,
) -> Seq<Diagnostic>
    decreases n,
{
    if n <= 0 {
        Seq::empty()
    } else {
        notes_upto(tree, faces, style, n - 1) + node_notes(tree[n - 1], faces, style)
    }
}

/// The state of the layouter after `node` has come: text is shaped from left
/// to right and comes as a box aligned at the start, a space as a space, a
/// paragraph break as one, and nothing comes of any other node.
pub open spec fn node_step(
    state: StackState,
    node: Spanned<SyntaxNode>,
    faces: Seq<FontFace>,
    style: TextStyle,
) -> StackState {
    let named = StackState { span: Some(node.span), ..state };
    match node.v {
        SyntaxNode::Text(text) => named.on_layout(
            GenAlign::Start,
            shaped(text@, faces, style, Dir::LTR).layout,
        ),
        SyntaxNode::Space => named.on_space(),
        SyntaxNode::Parbreak => named.on_parbreak(),
        _ => named,
    }
}

/// The state of the layouter after the first `n` nodes of `tree` have come.
pub open spec fn state_upto(
    tree: Seq<Spanned<SyntaxNode>>,
    faces: Seq<FontFace>,
    style: LayoutStyle,
    n: int,
) -> StackState
    decreases n,
{
    if n <= 0 {
        start_state(faces, style)
    } else {
        node_step(state_upto(tree, faces, style, n - 1), tree[n - 1], faces, style.text)
    }
}

/// Whether every element of every one of `pages` is positioned in `frame`
/// grown by `EPS`.
pub open spec fn all_stay_in(pages: Seq<LayoutView>, frame: Rect) -> bool {
    forall|i: int| 0 <= i < pages.len() ==> stays_in(#[trigger] pages[i], frame)
}

/// Kept across the nodes: the layouter has a page; its supply is the area of
/// the page, spilling; its diagnostics are overflows only; and while it has
/// none, every page is regular.
spec fn on_track(state: StackState, faces: Seq<FontFace>, style: LayoutStyle) -> bool {
    &&& state.inv()
    &&& state.current is Some
    &&& state.policy == Overflow::Spill
    &&& state.opts == stack_options(faces, style)
    &&& state.pool == seq![page_area(style)]
    &&& forall|i: int|
        0 <= i < state.feedback.len() ==> (#[trigger] state.feedback[i]).kind
            == DiagnosticKind::Overflow
    &&& state.feedback.len() == 0 ==> state.tidy()
}

/// A state that follows one that is on track is on track, if it is tidy
/// unless something overflowed.
proof fn lemma_on_track(
    before: StackState,
    after: StackState,
    faces: Seq<FontFace>,
    style: LayoutStyle,
)
    requires
        on_track(before, faces, style),
        after.inv(),
        after.follows(before),
        before.tidy() && after.feedback.len() == before.feedback.len() ==> after.tidy(),
    ensures
        on_track(after, faces, style),
{
    assert forall|i: int| 0 <= i < after.feedback.len() implies (#[trigger] after.feedback[i]).kind
        == DiagnosticKind::Overflow by {
        if i < before.feedback.len() {
            assert(after.feedback[i] == before.feedback[i]);
        }
    }
}

/// Processes a syntax tree into a collection of layouts.
///
/// The nodes come to a layouter that stacks from top to bottom into the area
/// of the page, which is handed out again for every further page. Text is
/// shaped from left to right and comes as a box aligned at the start; a space
/// comes as a space and a paragraph break as one; any other node is skipped
/// and reported. The pages come with the diagnostics of the nodes, in
/// document order, and after them those of the layouter.
///
/// Unless something overflowed, every element of every page is positioned in
/// the page but for its margins, grown by `EPS`.
pub fn layout<S>(tree: &SyntaxTree, loader: &FontLoader, state: State<S>) -> (pass: Pass<
    Vec<Layout>,
>)
    requires
        state.style.wf(),
    ensures
        state_upto(tree@, loader@, state.style, tree@.len() as int).inv(),
        views(pass.output@) == state_upto(
            tree@,
            loader@,
            state.style,
            tree@.len() as int,
        ).pages(),
        pass.feedback@ == notes_upto(tree@, loader@, state.style.text, tree@.len() as int)
            + state_upto(tree@, loader@, state.style, tree@.len() as int).flush().feedback,
        pass.output@.len() >= 1,
        !has_kind(pass.feedback@, DiagnosticKind::Overflow) ==> all_stay_in(
            views(pass.output@),
            page_area(state.style).usable,
        ),
{
    let ghost faces = loader@;
    let ghost style = state.style;
    let page = &state.style.page;
    let margins = page.margins();
    let area: Area = Area::of_page(page.size, margins);
    assert(area == page_area(style));
    let mut supply: Vec<Area> = Vec::new();
    supply.push(area);
    assert(supply@ == seq![area]);
    let areas: Areas = Areas::new(supply, Overflow::Spill);
    let gap: Pass<Layout> = shape(
        " ",
        ShapeOptions { loader, style: &state.style.text, dir: Dir::LTR },
    );
    proof {
        reveal_strlit(" ");
        assert(" "@ == seq![' ']);
    }
    let opts: StackOptions = StackOptions::new(gap.output.dim, state.style.text.par_spacing);
    proof {
        StackState::lemma_start(areas@, Overflow::Spill, opts);
    }
    let mut stack: StackLayouter = StackLayouter::new(areas, opts);
    let mut notes: Feedback = Feedback::new();
    let n: usize = tree.len();
    let mut i: usize = 0;
    while i < n
        invariant
            n == tree@.len(),
            i <= n,
            faces == loader@,
            style == state.style,
            style.wf(),
            stack.wf(),
            stack@ == state_upto(tree@, faces, style, i as int),
            on_track(stack@, faces, style),
            notes@ == notes_upto(tree@, faces, style.text, i as int),
        decreases n - i,
    {
        let node = &tree[i];
        let ghost before = stack@;
        stack.set_span(Some(node.span));
        let ghost named = stack@;
        proof {
            stack.lemma_wf();
            assert(on_track(named, faces, style));
        }
        match &node.v {
            SyntaxNode::Text(text) => {
                let shaped_text: Pass<Layout> = shape(
                    text.as_str(),
                    ShapeOptions { loader, style: &state.style.text, dir: Dir::LTR },
                );
                let m: usize = shaped_text.feedback.len();
                let mut k: usize = 0;
                while k < m
                    invariant
                        m == shaped_text.feedback@.len(),
                        k <= m,
                        notes@ == notes_upto(tree@, faces, style.text, i as int) + about(
                            shaped_text.feedback@.subrange(0, k as int),
                            node.span,
                        ),
                    decreases m - k,
                {
                    notes.push(
                        Diagnostic::new(shaped_text.feedback.diagnostics[k].kind, Some(node.span)),
                    );
                    k += 1;
                }
                assert(shaped_text.feedback@.subrange(0, m as int) == shaped_text.feedback@);
                let item: LayoutItem = LayoutItem::Layout(GenAlign::Start, shaped_text.output);
                proof {
                    named.lemma_step(item);
                }
                stack.layout_item(item);
            },
            SyntaxNode::Space => {
                proof {
                    named.lemma_step(LayoutItem::Space);
                }
                stack.layout_item(LayoutItem::Space);
                assert(notes@ == notes_upto(tree@, faces, style.text, i + 1));
            },
            SyntaxNode::Parbreak => {
                proof {
                    named.lemma_step(LayoutItem::Parbreak);
                }
                stack.layout_item(LayoutItem::Parbreak);
                assert(notes@ == notes_upto(tree@, faces, style.text, i + 1));
            },
            _ => {
                notes.push(Diagnostic::new(DiagnosticKind::UnknownNode, Some(node.span)));
            },
        }
        proof {
            stack.lemma_wf();
            lemma_on_track(named, stack@, faces, style);
        }
        i += 1;
    }
    let ghost last = stack@;
    proof {
        stack.lemma_wf();
        last.lemma_flush();
    }
    let done: Pass<Vec<Layout>> = stack.finish();
    let Pass { output, feedback } = done;
    notes.extend(&feedback);
    proof {
        let flushed = last.flush();
        let frame = page_area(style).usable;
        assert(flushed.current is Some);
        assert(views(output@).len() == output@.len());
        if !has_kind(notes@, DiagnosticKind::Overflow) {
            if flushed.feedback.len() > 0 {
                assert(flushed.feedback[0].kind == DiagnosticKind::Overflow) by {
                    if last.feedback.len() > 0 {
                        assert(flushed.feedback[0] == last.feedback[0]);
                    }
                }
                let at = notes_upto(tree@, faces, style.text, n as int).len() as int;
                assert(notes@[at] == flushed.feedback[0]);
                assert(false);
            }
            assert(flushed.tidy());
            assert forall|p: int| 0 <= p < views(output@).len() implies stays_in(
                #[trigger] views(output@)[p],
                frame,
            ) by {
                regular_pages_stay_in_frame(last, p);
                let trace = last.page_traces()[p];
                assert(trace.regular);
                assert(last.pool[0] == page_area(style));
                assert(trace.frame == frame);
            }
        }
    }
    Pass::new(output, notes)
}

} // verus!
