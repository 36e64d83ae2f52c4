//! A URI written without quotes.
use vstd::prelude::*;
use vstd::string::StringSliceAdditionalSpecFns;
use crate::lints::{fix_report, outcome_view, fires, Lint};
use crate::make::{quote, synthesized};
use crate::report::{InternalError, Report, ReportModel};
use crate::syntax::{TreeModel, text_of, wf_tree, SyntaxTree, NODE_STRING, TOKEN_URI};

verus! {

/// On a URI token: it is replaced by its enclosing node, quoted.
pub open spec fn spec_report(t: TreeModel, i: int) -> Result<Option<ReportModel>, InternalError> {
    let els = t.elements;
    match els[i].parent {
        Some(p) => if els[i].kind != TOKEN_URI {
            Ok(None)
        } else {
            match synthesized("\"".spec_bytes() + text_of(t, p as int) + "\"".spec_bytes(), NODE_STRING) {
                Some(fix) => fires(
                    fix_report(
                        Lint::UnquotedUri,
                        els[i].range,
                        "Consider quoting this URI expression"@,
                        els[i].range,
                        Some(fix),
                    ),
                ),
                None => Err(InternalError::Synthesis),
            }
        },
        None => Ok(None),
    }
}

pub fn validate(t: &SyntaxTree, i: usize) -> (r: Result<Option<Report>, InternalError>)
    requires
        wf_tree(t),
        i < t.elements@.len(),
    ensures
        outcome_view(r) == spec_report(t@, i as int),
{
    let p = match t.parent(i) {
        Some(p) => p,
        None => return Ok(None),
    };
    if t.kind(i) != TOKEN_URI {
        return Ok(None);
    }
    assert(i < t.elements@[i as int].subtree_end);
    let fix = match quote(t.text(p).as_slice()) {
        Some(f) => f,
        None => return Err(InternalError::Synthesis),
    };
    let at = t.range(i);
    Ok(Some(Lint::UnquotedUri.fix_report(at, "Consider quoting this URI expression".to_owned(), at, Some(fix))))
}

/// The ranges of what this rule reports lie within the text.
pub proof fn lemma_within(t: TreeModel, i: int)
    requires
        crate::syntax::ranges_in_text(t),
        0 <= i < t.elements.len(),
    ensures
        match spec_report(t, i) {
            Ok(Some(r)) => crate::lints::report_within(r, t.text.len() as int),
            _ => true,
        },
{
    broadcast use crate::syntax::lemma_nth_child_bound, crate::syntax::lemma_children_in_bound,
        crate::syntax::lemma_children_of_bound;
}

} // verus!
