//! Severity levels, the duplicate policy and the diagnostic log.

use vstd::prelude::*;
use vstd::string::*;

verus! {

/// A source location: the half-open byte range `lo..hi`.
#[derive(Clone, Copy, Debug, PartialEq, Eq, Structural)]
pub struct Span {
    pub lo: u32,
    pub hi: u32,
}

impl Span {
    /// The location of a slot that holds nothing yet.
    pub open spec fn spec_dummy() -> Span {
        Span { lo: 0, hi: 0 }
    }

    /// The location `lo..hi`.
    pub fn new(lo: u32, hi: u32) -> (r: Span)
        ensures
            r == (Span { lo, hi }),
    {
        Span { lo, hi }
    }

    /// The location of a slot that holds nothing yet.
    #[verifier::when_used_as_spec(spec_dummy)]
    pub fn dummy() -> (r: Span)
        ensures
            r == Span::spec_dummy(),
    {
        Span { lo: 0, hi: 0 }
    }
}

/// How a diagnostic is presented.
#[derive(Clone, Copy, Debug, PartialEq, Eq, Structural)]
pub enum DiagnosticKind {
    Warning,
    Error,
    Note,
}

/// One entry of the diagnostic log.
#[derive(Clone, Debug)]
pub struct Diagnostic {
    pub kind: DiagnosticKind,
    pub span: Span,
    pub message: String,
}

/// What a `Diagnostic` says, with its text as a sequence of characters.
pub ghost struct DiagnosticView {
    pub kind: DiagnosticKind,
    pub span: Span,
    pub message: Seq<char>,
}

impl View for Diagnostic {
    type V = DiagnosticView;

    open spec fn view(&self) -> DiagnosticView {
        DiagnosticView { kind: self.kind, span: self.span, message: self.message@ }
    }
}

/// The append-only log that matching and merging report into.
/// Its view is the sequence of entries in the order they were raised.
pub struct Diagnostics {
    entries: Vec<Diagnostic>,
}

impl View for Diagnostics {
    type V = Seq<DiagnosticView>;

    closed spec fn view(&self) -> Seq<DiagnosticView> {
        Seq::new(self.entries@.len(), |i: int| self.entries@[i]@)
    }
}

/// Whether some entry of `log` is an error.
pub open spec fn contains_error(log: Seq<DiagnosticView>) -> bool {
    exists|i: int| 0 <= i < log.len() && (#[trigger] log[i]).kind == DiagnosticKind::Error
}

impl Diagnostics {
    /// An empty log.
    pub fn new() -> (r: Diagnostics)
        ensures
            r@ == Seq::<DiagnosticView>::empty(),
    {
        let r = Diagnostics { entries: Vec::new() };
        assert(r@ =~= Seq::<DiagnosticView>::empty());
        r
    }

    fn push(&mut self, kind: DiagnosticKind, span: Span, msg: &str)
        ensures
            final(self)@ == old(self)@.push(DiagnosticView { kind, span, message: msg@ }),
    {
        let message = String::from_str(msg);
        self.entries.push(Diagnostic { kind, span, message });
        assert(self@ =~= old(self)@.push(DiagnosticView { kind, span, message: msg@ }));
    }

    /// Appends a warning at `span`.
    pub fn span_warn(&mut self, span: Span, msg: &str)
        ensures
            final(self)@ == old(self)@.push(
                DiagnosticView { kind: DiagnosticKind::Warning, span, message: msg@ },
            ),
    {
        self.push(DiagnosticKind::Warning, span, msg)
    }

    /// Appends an error at `span`.
    pub fn span_err(&mut self, span: Span, msg: &str)
        ensures
            final(self)@ == old(self)@.push(
                DiagnosticView { kind: DiagnosticKind::Error, span, message: msg@ },
            ),
    {
        self.push(DiagnosticKind::Error, span, msg)
    }

    /// Appends a note at `span`.
    pub fn span_note(&mut self, span: Span, msg: &str)
        ensures
            final(self)@ == old(self)@.push(
                DiagnosticView { kind: DiagnosticKind::Note, span, message: msg@ },
            ),
    {
        self.push(DiagnosticKind::Note, span, msg)
    }

    /// The number of entries.
    pub fn len(&self) -> (n: usize)
        ensures
            n == self@.len(),
    {
        self.entries.len()
    }

    /// The entry at position `i`, oldest first.
    pub fn get(&self, i: usize) -> (d: &Diagnostic)
        requires
            i < self@.len(),
        ensures
            d@ == self@[i as int],
    {
        &self.entries[i]
    }

    /// Whether an error was reported.
    pub fn has_errors(&self) -> (r: bool)
        ensures
            r == contains_error(self@),
    {
        let mut i: usize = 0;
        while i < self.entries.len()
            invariant
                i <= self.entries@.len(),
                forall|j: int| 0 <= j < i ==> (#[trigger] self@[j]).kind != DiagnosticKind::Error,
            decreases self.entries@.len() - i,
        {
            match self.entries[i].kind {
                DiagnosticKind::Error => {
                    assert(self@[i as int].kind == DiagnosticKind::Error);
                    return true;
                },
                _ => {},
            }
            i = i + 1;
        }
        false
    }
}

/// How loudly a condition is reported.
#[derive(Clone, Copy, Debug, PartialEq, Eq, Structural)]
pub enum CompileErrorLevel {
    Silent,
    Warn,
    Error,
}

impl CompileErrorLevel {
    /// What `issue` appends: nothing when silent, else one warning or error.
    pub open spec fn report(self, span: Span, msg: Seq<char>) -> Seq<DiagnosticView> {
        match self {
            CompileErrorLevel::Silent => Seq::empty(),
            CompileErrorLevel::Warn => seq![
                DiagnosticView { kind: DiagnosticKind::Warning, span, message: msg },
            ],
            CompileErrorLevel::Error => seq![
                DiagnosticView { kind: DiagnosticKind::Error, span, message: msg },
            ],
        }
    }

    /// Reports `msg` at `span`, as loudly as the level says.
    pub fn issue(&self, cx: &mut Diagnostics, span: Span, msg: &str)
        ensures
            final(cx)@ == old(cx)@ + self.report(span, msg@),
    {
        match *self {
            CompileErrorLevel::Silent => {
                assert(cx@ =~= old(cx)@ + self.report(span, msg@));
            },
            CompileErrorLevel::Warn => {
                cx.span_warn(span, msg);
                assert(cx@ =~= old(cx)@ + self.report(span, msg@));
            },
            CompileErrorLevel::Error => {
                cx.span_err(span, msg);
                assert(cx@ =~= old(cx)@ + self.report(span, msg@));
            },
        }
    }

    /// Whether nothing is reported at this level.
    pub fn is_silent(&self) -> (r: bool)
        ensures
            r == (*self == CompileErrorLevel::Silent),
    {
        match *self {
            CompileErrorLevel::Silent => true,
            _ => false,
        }
    }

    /// Whether a report at this level is an error.
    pub fn is_error(&self) -> (r: bool)
        ensures
            r == (*self == CompileErrorLevel::Error),
    {
        match *self {
            CompileErrorLevel::Error => true,
            _ => false,
        }
    }
}

/// What happens when a slot that already holds a value is written again.
#[derive(Clone, Copy, Debug)]
pub struct DuplicateAttribute {
    pub level: CompileErrorLevel,
    pub extra_msg: Option<&'static str>,
}

/// The text of a duplicate report: a fixed sentence, then the policy's note.
pub open spec fn duplicate_message(extra_msg: Option<&'static str>) -> Seq<char> {
    match extra_msg {
        Some(extra) => "Duplicate attribute. "@ + extra@,
        None => "Duplicate attribute. "@,
    }
}

/// The text of the note that follows a duplicate report.
pub open spec fn previous_message() -> Seq<char> {
    "Previous declaration here."@
}

impl DuplicateAttribute {
    /// A policy that reports duplicates at `level`, with `extra_msg` after
    /// the fixed sentence.
    pub fn new(level: CompileErrorLevel, extra_msg: Option<&'static str>) -> (r: DuplicateAttribute)
        ensures
            r == (DuplicateAttribute { level, extra_msg }),
    {
        DuplicateAttribute { level, extra_msg }
    }

    /// A policy that reports duplicates at `level` with no further text.
    pub fn simple(level: CompileErrorLevel) -> (r: DuplicateAttribute)
        ensures
            r == (DuplicateAttribute { level, extra_msg: None }),
    {
        DuplicateAttribute::new(level, None)
    }

    /// A policy under which a duplicate is an error, explained by
    /// `extra_msg`.
    pub fn error(extra_msg: &'static str) -> (r: DuplicateAttribute)
        ensures
            r == (DuplicateAttribute {
                level: CompileErrorLevel::Error,
                extra_msg: Some(extra_msg),
            }),
    {
        DuplicateAttribute::new(CompileErrorLevel::Error, Some(extra_msg))
    }

    /// What `issue` appends: at a silent level nothing; else the duplicate
    /// report at `span`, then a note at `previous_span`.
    pub open spec fn report(self, span: Span, previous_span: Span) -> Seq<DiagnosticView> {
        if self.level == CompileErrorLevel::Silent {
            Seq::empty()
        } else {
            self.level.report(span, duplicate_message(self.extra_msg)).push(
                DiagnosticView {
                    kind: DiagnosticKind::Note,
                    span: previous_span,
                    message: previous_message(),
                },
            )
        }
    }

    /// Reports a second value at `span` for a slot first filled at
    /// `previous_span`, and tells whether that counts as an error.
    pub fn issue(&self, cx: &mut Diagnostics, span: Span, previous_span: Span) -> (r: bool)
        ensures
            final(cx)@ == old(cx)@ + self.report(span, previous_span),
            r == (self.level == CompileErrorLevel::Error),
    {
        let mut msg = String::from_str("Duplicate attribute. ");
        match self.extra_msg {
            Some(extra) => {
                msg.append(extra);
            },
            None => {},
        }
        self.level.issue(cx, span, msg.as_str());
        if !self.level.is_silent() {
            cx.span_note(previous_span, "Previous declaration here.");
        }
        assert(cx@ =~= old(cx)@ + self.report(span, previous_span));
        self.level.is_error()
    }
}

} // verus!
