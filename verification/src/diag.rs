//! Diagnostics: a parse failure is a kind plus the character offset at which
//! the active grammar rule failed, together with a copy of the input, so the
//! failure can be rendered as an annotated source snippet at any later time.

use vstd::prelude::*;
use vstd::string::StrSliceExecFns;

verus! {

/// The five mutually exclusive outcomes of a failed parse.
#[derive(Clone, Copy, PartialEq, Eq, Structural, Debug)]
pub enum ErrorKind {
    /// The atom-count header is missing, non-numeric, or not a line of its own.
    HeaderError,
    /// The input ends before the title's line terminator.
    TitleUnterminated,
    /// The atom list stops short: fewer well-formed atom lines than the
    /// header declared before the input (or the line) ran out.
    AtomListTruncated,
    /// An atom line does not match `<atom_symbol> <x> <y> <z>`.
    AtomFormatError,
    /// The strict parse found bytes after the record.
    TrailingContentError,
}

/// The diagnostic message for each failure kind: the label of the grammar
/// rule that was active, with the expected shape for a malformed atom line.
pub open spec fn kind_label(k: ErrorKind) -> Seq<char> {
    match k {
        ErrorKind::HeaderError => "number of atoms"@,
        ErrorKind::TitleUnterminated => "title"@,
        ErrorKind::AtomListTruncated => "atoms list"@,
        ErrorKind::AtomFormatError => "xyz atom: expected <atom_symbol> <x> <y> <z>"@,
        ErrorKind::TrailingContentError => "XYZ file"@,
    }
}

/// What a rendered diagnostic is: the plain-text annotated snippet produced
/// for a message, a source text, and the character offset of the failure.
pub uninterp spec fn rendered_note(message: Seq<char>, source: Seq<char>, at: int) -> Seq<char>;

/// Relies on annotate_snippets (`Level::Error`, `Snippet::source` with
/// folding, `Renderer::plain`): renders a plain-text annotated snippet whose
/// content depends on the arguments alone.  The body converts the character
/// offset to that character's byte span (empty at the end of input), which
/// keeps the span inside the source, the one case the renderer refuses.
#[verifier::external_body]
fn render_snippet(message: &str, source: &str, at: usize) -> (r: String)
    ensures
        r@ == rendered_note(message@, source@, at as int),
{
    let mut it = source.char_indices().skip(at);
    let (lo, hi) = match it.next() {
        Some((p, _)) => (p, it.next().map_or(source.len(), |q| q.0)),
        None => (source.len(), source.len()),
    };
    let msg = annotate_snippets::Level::Error.title(message).snippet(
        annotate_snippets::Snippet::source(source).fold(true).annotation(
            annotate_snippets::Level::Error.span(lo..hi),
        ),
    );
    annotate_snippets::Renderer::plain().render(msg).to_string()
}

/// The mathematical content of a diagnostic.
pub struct SpecDiag {
    pub kind: ErrorKind,
    pub offset: int,
    pub input: Seq<char>,
}

/// A diagnostic for one failed parse: the failure kind, the character offset
/// of the single offending character, and a copy of the offending input.
#[derive(Debug)]
pub struct ParseChemfileError {
    kind: ErrorKind,
    offset: usize,
    input: String,
}

impl View for ParseChemfileError {
    type V = SpecDiag;

    closed spec fn view(&self) -> SpecDiag {
        SpecDiag { kind: self.kind, offset: self.offset as int, input: self.input@ }
    }
}

impl ParseChemfileError {
    /// Record a failure of `kind` at character `offset` of `input`.
    pub fn new(kind: ErrorKind, offset: usize, input: &str) -> (e: ParseChemfileError)
        ensures
            e@.kind == kind,
            e@.offset == offset as int,
            e@.input == input@,
    {
        ParseChemfileError { kind, offset, input: input.to_owned() }
    }

    /// The failure kind.
    pub fn kind(&self) -> (k: ErrorKind)
        ensures
            k == self@.kind,
    {
        self.kind
    }

    /// The character offset of the failure in the input.
    pub fn offset(&self) -> (o: usize)
        ensures
            o as int == self@.offset,
    {
        self.offset
    }

    /// The input the failure was found in.
    pub fn source(&self) -> (s: &str)
        ensures
            s@ == self@.input,
    {
        self.input.as_str()
    }

    /// How many characters the failure span covers: one, or none when the
    /// failure lies at the end of the input.
    pub fn span_len(&self) -> (n: usize)
        ensures
            n == if self@.offset < self@.input.len() {
                1int
            } else {
                0int
            },
    {
        if self.offset < self.input.as_str().unicode_len() {
            1
        } else {
            0
        }
    }

    /// The diagnostic message: the label of the failing grammar rule.
    pub fn message(&self) -> (m: String)
        ensures
            m@ == kind_label(self@.kind),
    {
        match self.kind {
            ErrorKind::HeaderError => "number of atoms".to_owned(),
            ErrorKind::TitleUnterminated => "title".to_owned(),
            ErrorKind::AtomListTruncated => "atoms list".to_owned(),
            ErrorKind::AtomFormatError => "xyz atom: expected <atom_symbol> <x> <y> <z>".to_owned(),
            ErrorKind::TrailingContentError => "XYZ file".to_owned(),
        }
    }

    /// The diagnostic rendered as a plain-text annotated snippet of the
    /// input, with the failing character marked.
    pub fn render(&self) -> (r: String)
        ensures
            r@ == rendered_note(kind_label(self@.kind), self@.input, self@.offset),
    {
        let m = self.message();
        render_snippet(m.as_str(), self.input.as_str(), self.offset)
    }
}

} // verus!
