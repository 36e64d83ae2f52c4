//! `let in x`: a let-in without bindings.
use vstd::prelude::*;
use crate::lints::{fix_report, note_report, outcome_view, fires, Lint};
use crate::report::{InternalError, Report, ReportModel};
use crate::syntax::{
    TreeModel,
    children_in, nth_child, text_of, wf_tree, KindClass, SyntaxTree, NODE_LET_IN, TOKEN_COMMENT,
};

verus! {

/// On a let-in with no binding: it is replaced by its body, unless a comment
/// stands directly in it, in which case it is only reported.
pub open spec fn spec_report(t: TreeModel, i: int) -> Result<Option<ReportModel>, InternalError> {
    let els = t.elements;
    if els[i].kind != NODE_LET_IN || children_in(els, i, KindClass::Entry).len() != 0 {
        Ok(None)
    } else {
        match nth_child(els, i, KindClass::Expr, 0) {
            Some(body) => if children_in(els, i, KindClass::Exactly(TOKEN_COMMENT)).len() != 0 {
                fires(note_report(Lint::EmptyLetIn, els[i].range, "This let-in expression has no entries"@))
            } else {
                fires(
                    fix_report(
                        Lint::EmptyLetIn,
                        els[i].range,
                        "This let-in expression has no entries"@,
                        els[i].range,
                        Some(text_of(t, body as int)),
                    ),
                )
            },
            None => Ok(None),
        }
    }
}

pub fn validate(t: &SyntaxTree, i: usize) -> (r: Result<Option<Report>, InternalError>)
    requires
        wf_tree(t),
        i < t.elements@.len(),
    ensures
        outcome_view(r) == spec_report(t@, i as int),
{
    if t.kind(i) != NODE_LET_IN || t.count_children(i, KindClass::Entry) != 0 {
        return Ok(None);
    }
    let body = match t.nth_child(i, KindClass::Expr, 0) {
        Some(x) => x,
        None => return Ok(None),
    };
    let at = t.range(i);
    let message = "This let-in expression has no entries".to_owned();
    if t.count_children(i, KindClass::Exactly(TOKEN_COMMENT)) != 0 {
        Ok(Some(Lint::EmptyLetIn.note_report(at, message)))
    } else {
        Ok(Some(Lint::EmptyLetIn.fix_report(at, message, at, Some(t.text(body)))))
    }
}

/// The ranges of what this rule reports lie within the text.
pub proof fn lemma_within(t: TreeModel, i: int)
    requires
        crate::syntax::ranges_in_text(t),
        0 <= i < t.elements.len(),
    ensures
        match spec_report(t, i) {
            Ok(Some(r)) => crate::lints::report_within(r, t.text.len() as int),
            _ => true,
        },
{
    broadcast use crate::syntax::lemma_nth_child_bound, crate::syntax::lemma_children_in_bound,
        crate::syntax::lemma_children_of_bound;
}

} // verus!
