//! User-facing diagnostics with source positions.
use vstd::prelude::*;
use crate::ast::{SourcePos, SpecSourcePos};
use crate::text::{chars_of, decimal, push_all, push_decimal, string_of};

verus! {

/// A diagnostic with its source location.
#[derive(Clone, Debug, PartialEq, Eq)]
pub struct Diagnostic {
    pub pos: SourcePos,
    pub message: String,
}

/// Model of a diagnostic.
pub struct SpecDiagnostic {
    pub pos: SpecSourcePos,
    pub message: Seq<char>,
}

impl View for Diagnostic {
    type V = SpecDiagnostic;

    open spec fn view(&self) -> SpecDiagnostic {
        SpecDiagnostic { pos: self.pos@, message: self.message@ }
    }
}

/// `file:line:column: message`.
pub open spec fn rendered(d: SpecDiagnostic) -> Seq<char> {
    d.pos.file + ":"@ + decimal(d.pos.line as nat) + ":"@ + decimal(d.pos.column as nat) + ": "@ + d.message
}

impl Diagnostic {
    /// A diagnostic at a position.
    pub fn new(pos: SourcePos, message: String) -> (r: Self)
        ensures
            r.pos == pos,
            r.message == message,
    {
        Diagnostic { pos, message }
    }

    /// Renders as `file:line:column: message`.
    pub fn render(&self) -> (r: String)
        ensures
            r@ == rendered(self@),
    {
        let mut buf = chars_of(self.pos.file.as_str());
        let colon = chars_of(":");
        let sep = chars_of(": ");
        push_all(&mut buf, colon.as_slice());
        push_decimal(&mut buf, self.pos.line as u64);
        push_all(&mut buf, colon.as_slice());
        push_decimal(&mut buf, self.pos.column as u64);
        push_all(&mut buf, sep.as_slice());
        let msg = chars_of(self.message.as_str());
        push_all(&mut buf, msg.as_slice());
        string_of(buf.as_slice())
    }
}

/// A list of diagnostics in the order they were found.
#[derive(Clone, Debug, PartialEq, Eq)]
pub struct DiagnosticSet {
    diagnostics: Vec<Diagnostic>,
}

impl View for DiagnosticSet {
    type V = Seq<Diagnostic>;

    closed spec fn view(&self) -> Seq<Diagnostic> {
        self.diagnostics@
    }
}

impl DiagnosticSet {
    /// An empty set.
    pub fn new() -> (r: Self)
        ensures
            r@ == Seq::<Diagnostic>::empty(),
    {
        DiagnosticSet { diagnostics: Vec::new() }
    }

    /// Adds a diagnostic at the end.
    pub fn push(&mut self, diagnostic: Diagnostic)
        ensures
            final(self)@ == old(self)@.push(diagnostic),
    {
        self.diagnostics.push(diagnostic);
    }

    /// Whether there is no diagnostic.
    pub fn is_empty(&self) -> (r: bool)
        ensures
            r == (self@.len() == 0),
    {
        self.diagnostics.len() == 0
    }

    /// The diagnostics, in order.
    pub fn into_vec(self) -> (r: Vec<Diagnostic>)
        ensures
            r@ == self@,
    {
        self.diagnostics
    }
}

} // verus!
