//! `inherit;`: an inherit statement that brings nothing into scope.
use vstd::prelude::*;
use crate::lints::{fix_report, outcome_view, fires, Lint};
use crate::report::{InternalError, Report, ReportModel};
use crate::syntax::{
    children_in, nth_child, wf_tree, with_preceeding_whitespace, with_preceeding_whitespace_spec,
    KindClass, SyntaxTree, TreeModel, NODE_INHERIT, NODE_INHERIT_FROM,
};

verus! {

/// On an `inherit` with neither a source nor names: it is deleted, with the
/// whitespace before it.
pub open spec fn spec_report(t: TreeModel, i: int) -> Result<Option<ReportModel>, InternalError> {
    let els = t.elements;
    if els[i].kind != NODE_INHERIT || nth_child(els, i, KindClass::Exactly(NODE_INHERIT_FROM), 0)
        is Some || children_in(els, i, KindClass::Attr).len() != 0 {
        Ok(None)
    } else {
        fires(
            fix_report(
                Lint::EmptyInherit,
                els[i].range,
                "Remove this empty `inherit` statement"@,
                with_preceeding_whitespace_spec(t, i),
                None,
            ),
        )
    }
}

pub fn validate(t: &SyntaxTree, i: usize) -> (r: Result<Option<Report>, InternalError>)
    requires
        wf_tree(t),
        i < t.elements@.len(),
    ensures
        outcome_view(r) == spec_report(t@, i as int),
{
    if t.kind(i) != NODE_INHERIT || t.nth_child(i, KindClass::Exactly(NODE_INHERIT_FROM), 0).is_some()
        || t.count_children(i, KindClass::Attr) != 0 {
        return Ok(None);
    }
    let message = "Remove this empty `inherit` statement".to_owned();
    Ok(Some(Lint::EmptyInherit.fix_report(t.range(i), message, with_preceeding_whitespace(t, i), None)))
}

/// The ranges of what this rule reports lie within the text.
pub proof fn lemma_within(t: TreeModel, i: int)
    requires
        crate::syntax::ranges_in_text(t),
        0 <= i < t.elements.len(),
    ensures
        match spec_report(t, i) {
            Ok(Some(r)) => crate::lints::report_within(r, t.text.len() as int),
            _ => true,
        },
{
    broadcast use crate::syntax::lemma_nth_child_bound, crate::syntax::lemma_children_in_bound,
        crate::syntax::lemma_children_of_bound;
    crate::syntax::lemma_prev_sibling_bound(t.elements, i);
}

} // verus!
