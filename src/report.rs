//! What the rules report: a report per firing, made of diagnostics, each of
//! which may carry a suggestion that replaces a range of the text.
use vstd::prelude::*;
use vstd::utf8::{valid_utf8, decode_utf8};
use crate::syntax::TextRange;

verus! {

/// A proposed edit: the range to replace, and the replacement text (none: delete).
pub struct Suggestion {
    pub at: TextRange,
    pub fix: Option<Vec<u8>>,
}

pub struct SuggestionModel {
    pub at: TextRange,
    pub fix: Option<Seq<u8>>,
}

impl View for Suggestion {
    type V = SuggestionModel;

    open spec fn view(&self) -> SuggestionModel {
        SuggestionModel {
            at: self.at,
            fix: match self.fix {
                Some(v) => Some(v@),
                None => None,
            },
        }
    }
}

/// One finding: where, what, and possibly how to fix it.
pub struct Diagnostic {
    pub at: TextRange,
    pub message: String,
    pub suggestion: Option<Suggestion>,
}

pub struct DiagnosticModel {
    pub at: TextRange,
    pub message: Seq<char>,
    pub suggestion: Option<SuggestionModel>,
}

impl View for Diagnostic {
    type V = DiagnosticModel;

    open spec fn view(&self) -> DiagnosticModel {
        DiagnosticModel {
            at: self.at,
            message: self.message@,
            suggestion: match self.suggestion {
                Some(s) => Some(s@),
                None => None,
            },
        }
    }
}

/// A rule's firing: its note and code, and its diagnostics in order.
pub struct Report {
    pub note: &'static str,
    pub code: u32,
    pub diagnostics: Vec<Diagnostic>,
}

pub struct ReportModel {
    pub note: Seq<char>,
    pub code: u32,
    pub diagnostics: Seq<DiagnosticModel>,
}

impl View for Report {
    type V = ReportModel;

    open spec fn view(&self) -> ReportModel {
        ReportModel {
            note: self.note@,
            code: self.code,
            diagnostics: self.diagnostics@.map_values(|d: Diagnostic| d@),
        }
    }
}

/// A rule asked for a replacement node that could not be made: the snippet
/// written for it did not parse, or held no node of the wanted kind. This is a
/// bug in the rule, not in the input, and it ends the operation.
#[derive(Copy, Clone, Debug, PartialEq, Eq, Structural)]
pub enum InternalError {
    Synthesis,
}

/// An applied edit: the range that was replaced, and the code of the rule.
#[derive(Copy, Clone, Debug, PartialEq, Eq, Structural)]
pub struct Fixed {
    pub at: TextRange,
    pub code: u32,
}

/// The text of a byte sequence, where each ill-formed part is replaced.
pub uninterp spec fn lossy_text(b: Seq<u8>) -> Seq<char>;

/// Relies on `String::from_utf8_lossy`: well-formed UTF-8 is decoded as it
/// stands, and the result depends on the bytes alone.
#[verifier::external_body]
pub(crate) fn text_from_bytes(b: &[u8]) -> (r: String)
    ensures
        r@ == lossy_text(b@),
        valid_utf8(b@) ==> r@ == decode_utf8(b@),
{
    String::from_utf8_lossy(b).into_owned()
}

/// Appends `s` to `v`.
pub fn append_bytes(v: &mut Vec<u8>, s: &[u8])
    ensures
        final(v)@ == old(v)@ + s@,
{
    let mut i: usize = 0;
    while i < s.len()
        invariant
            0 <= i <= s.len(),
            v@ == old(v)@ + s@.take(i as int),
        decreases s.len() - i,
    {
        v.push(s[i]);
        assert(s@.take(i + 1) =~= s@.take(i as int).push(s@[i as int]));
        i = i + 1;
    }
    assert(s@.take(s.len() as int) =~= s@);
}

impl Suggestion {
    /// Replace `at` with `fix`.
    pub fn new(at: TextRange, fix: Vec<u8>) -> (r: Suggestion)
        ensures
            r@ == (SuggestionModel { at, fix: Some(fix@) }),
    {
        Suggestion { at, fix: Some(fix) }
    }

    /// Replace `at` with `fix`.
    pub fn with_replacement(at: TextRange, fix: Vec<u8>) -> (r: Suggestion)
        ensures
            r@ == (SuggestionModel { at, fix: Some(fix@) }),
    {
        Suggestion { at, fix: Some(fix) }
    }

    /// Delete `at`.
    pub fn with_empty(at: TextRange) -> (r: Suggestion)
        ensures
            r@ == (SuggestionModel { at, fix: None }),
    {
        Suggestion { at, fix: None }
    }
}

impl Diagnostic {
    pub fn new(at: TextRange, message: String) -> (r: Diagnostic)
        ensures
            r@ == (DiagnosticModel { at, message: message@, suggestion: None }),
    {
        Diagnostic { at, message, suggestion: None }
    }

    pub fn suggest(at: TextRange, message: String, suggestion: Suggestion) -> (r: Diagnostic)
        ensures
            r@ == (DiagnosticModel { at, message: message@, suggestion: Some(suggestion@) }),
    {
        Diagnostic { at, message, suggestion: Some(suggestion) }
    }
}

impl Report {
    pub fn new(note: &'static str, code: u32) -> (r: Report)
        ensures
            r@ == (ReportModel { note: note@, code, diagnostics: Seq::empty() }),
    {
        let r = Report { note, code, diagnostics: Vec::new() };
        assert(r@.diagnostics =~= Seq::empty());
        r
    }

    /// This report with one more diagnostic, without a suggestion.
    pub fn diagnostic(self, at: TextRange, message: String) -> (r: Report)
        ensures
            r@ == (ReportModel {
                diagnostics: self@.diagnostics.push(
                    DiagnosticModel { at, message: message@, suggestion: None },
                ),
                ..self@
            }),
    {
        let mut r = self;
        r.diagnostics.push(Diagnostic::new(at, message));
        proof {
            assert(r@.diagnostics =~= self@.diagnostics.push(
                DiagnosticModel { at, message: message@, suggestion: None },
            ));
        }
        r
    }

    /// This report with one more diagnostic, with a suggestion.
    pub fn suggest(self, at: TextRange, message: String, suggestion: Suggestion) -> (r: Report)
        ensures
            r@ == (ReportModel {
                diagnostics: self@.diagnostics.push(
                    DiagnosticModel { at, message: message@, suggestion: Some(suggestion@) },
                ),
                ..self@
            }),
    {
        let ghost sm = suggestion@;
        let mut r = self;
        r.diagnostics.push(Diagnostic::suggest(at, message, suggestion));
        proof {
            assert(r@.diagnostics =~= self@.diagnostics.push(
                DiagnosticModel { at, message: message@, suggestion: Some(sm) },
            ));
        }
        r
    }

    /// The first suggestion of this report, if it has one.
    pub fn first_suggestion(&self) -> (r: Option<&Suggestion>)
        ensures
            match r {
                Some(s) => first_suggestion(self@.diagnostics) == Some(s@),
                None => first_suggestion(self@.diagnostics) is None,
            },
    {
        let mut i: usize = 0;
        assert(self@.diagnostics.skip(0) =~= self@.diagnostics);
        while i < self.diagnostics.len()
            invariant
                0 <= i <= self.diagnostics.len(),
                first_suggestion(self@.diagnostics) == first_suggestion(
                    self@.diagnostics.skip(i as int),
                ),
            decreases self.diagnostics.len() - i,
        {
            let ghost rest = self@.diagnostics.skip(i as int);
            assert(rest.drop_first() =~= self@.diagnostics.skip(i + 1));
            match &self.diagnostics[i].suggestion {
                Some(s) => {
                    return Some(s);
                },
                None => {},
            }
            i = i + 1;
        }
        None
    }
}

/// The suggestion of the first diagnostic that has one.
pub open spec fn first_suggestion(ds: Seq<DiagnosticModel>) -> Option<SuggestionModel>
    decreases ds.len(),
{
    if ds.len() == 0 {
        None
    } else {
        match ds[0].suggestion {
            Some(s) => Some(s),
            None => first_suggestion(ds.drop_first()),
        }
    }
}

/// A report drives an edit when one of its diagnostics carries a suggestion.
pub open spec fn is_fixable(r: ReportModel) -> bool {
    first_suggestion(r.diagnostics) is Some
}

} // verus!
