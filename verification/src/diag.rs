//! Diagnostics collected during a pass, and results that carry them.

use vstd::prelude::*;

verus! {

/// A range of the source text, in bytes.
#[derive(Clone, Copy, Debug, PartialEq, Eq, Structural)]
pub struct Span {
    pub start: usize,
    pub end: usize,
}

impl Span {
    pub fn new(start: usize, end: usize) -> (s: Span)
        ensures
            s == (Span { start, end }),
    {
        Span { start, end }
    }
}

/// A value with the span of the source it came from.
#[derive(Clone, Debug, PartialEq, Eq)]
pub struct Spanned<T> {
    pub v: T,
    pub span: Span,
}

impl<T> Spanned<T> {
    pub fn new(v: T, span: Span) -> (s: Spanned<T>)
        ensures
            s.v == v,
            s.span == span,
    {
        Spanned { v, span }
    }
}

/// What a diagnostic reports.
#[derive(Clone, Copy, Debug, PartialEq, Eq, Structural)]
pub enum DiagnosticKind {
    /// Content did not fit: it was placed although it sticks out of its area,
    /// or it was dropped because no area was left.
    Overflow,
    /// No font of the family list covers this character; the glyph for
    /// missing characters stands in its place.
    MissingGlyph(char),
    /// A run of text could not be shaped and was left empty.
    ShapingFailure,
    /// A node of a kind that the engine does not lay out was skipped.
    UnknownNode,
}

/// A diagnostic that does not end the pass.
#[derive(Clone, Copy, Debug, PartialEq, Eq, Structural)]
pub struct Diagnostic {
    pub kind: DiagnosticKind,
    /// The source the diagnostic is about, where that is known.
    pub span: Option<Span>,
}

impl Diagnostic {
    pub fn new(kind: DiagnosticKind, span: Option<Span>) -> (d: Diagnostic)
        ensures
            d == (Diagnostic { kind, span }),
    {
        Diagnostic { kind, span }
    }

    /// The same diagnostic about `span`.
    pub open spec fn spec_at(self, span: Option<Span>) -> Diagnostic {
        Diagnostic { kind: self.kind, span }
    }
}

/// The diagnostics of a pass, in the order in which they arose.
#[derive(Clone, Debug, PartialEq, Eq)]
pub struct Feedback {
    pub diagnostics: Vec<Diagnostic>,
}

impl View for Feedback {
    type V = Seq<Diagnostic>;

    open spec fn view(&self) -> Seq<Diagnostic> {
        self.diagnostics@
    }
}

impl Feedback {
    /// No diagnostics.
    pub fn new() -> (f: Feedback)
        ensures
            f@ == Seq::<Diagnostic>::empty(),
    {
        Feedback { diagnostics: Vec::new() }
    }

    /// Adds a diagnostic at the end.
    pub fn push(&mut self, diagnostic: Diagnostic)
        ensures
            final(self)@ == old(self)@.push(diagnostic),
    {
        self.diagnostics.push(diagnostic);
    }

    /// Adds the diagnostics of `more` at the end, in their order.
    pub fn extend(&mut self, more: &Feedback)
        ensures
            final(self)@ == old(self)@ + more@,
    {
        let n: usize = more.diagnostics.len();
        let mut i: usize = 0;
        while i < n
            invariant
                n == more@.len(),
                i <= n,
                self@ == old(self)@ + more@.subrange(0, i as int),
            decreases n - i,
        {
            self.diagnostics.push(more.diagnostics[i]);
            i += 1;
        }
        assert(more@.subrange(0, n as int) == more@);
    }

    /// The number of diagnostics.
    pub fn len(&self) -> (n: usize)
        ensures
            n == self@.len(),
    {
        self.diagnostics.len()
    }

    /// Whether there is no diagnostic.
    pub fn is_empty(&self) -> (b: bool)
        ensures
            b == (self@.len() == 0),
    {
        self.diagnostics.len() == 0
    }

    /// Whether a diagnostic of kind `kind` is among these.
    pub fn has(&self, kind: DiagnosticKind) -> (b: bool)
        ensures
            b == has_kind(self@, kind),
    {
        let n: usize = self.diagnostics.len();
        let mut i: usize = 0;
        while i < n
            invariant
                n == self@.len(),
                i <= n,
                forall|j: int| 0 <= j < i ==> (#[trigger] self@[j]).kind != kind,
            decreases n - i,
        {
            if self.diagnostics[i].kind == kind {
                return true;
            }
            i += 1;
        }
        false
    }
}

/// Whether a diagnostic of kind `kind` is among `diagnostics`.
pub open spec fn has_kind(diagnostics: Seq<Diagnostic>, kind: DiagnosticKind) -> bool {
    exists|j: int| 0 <= j < diagnostics.len() && (#[trigger] diagnostics[j]).kind == kind
}

/// The result of a pass together with the diagnostics that arose in it.
#[derive(Clone, Debug, PartialEq, Eq)]
pub struct Pass<T> {
    pub output: T,
    pub feedback: Feedback,
}

impl<T> Pass<T> {
    pub fn new(output: T, feedback: Feedback) -> (p: Pass<T>)
        ensures
            p.output == output,
            p.feedback == feedback,
    {
        Pass { output, feedback }
    }

    /// A result without diagnostics.
    pub fn ok(output: T) -> (p: Pass<T>)
        ensures
            p.output == output,
            p.feedback@ == Seq::<Diagnostic>::empty(),
    {
        Pass { output, feedback: Feedback::new() }
    }
}

} // verus!
