//! `x: f x`: a lambda that only applies a function to its argument.
use vstd::prelude::*;
use vstd::string::StringSliceAdditionalSpecFns;
use crate::lints::{fix_report, outcome_view, fires, Lint};
use crate::report::{InternalError, append_bytes, lossy_text, text_from_bytes, Report, ReportModel};
use crate::syntax::{
    TreeModel,
    nth_child, text_of, wf_tree, KindClass, SyntaxTree, NODE_APPLY, NODE_IDENT, NODE_IDENT_PARAM,
    NODE_LAMBDA,
};

verus! {

/// On `x: f x`, where `f` is an identifier other than `x`: the lambda is
/// replaced by `f`.
pub open spec fn spec_report(t: TreeModel, i: int) -> Result<Option<ReportModel>, InternalError> {
    let els = t.elements;
    match (nth_child(els, i, KindClass::Param, 0), nth_child(els, i, KindClass::Expr, 0)) {
        (Some(param), Some(body)) => {
            if els[i].kind != NODE_LAMBDA || els[param as int].kind != NODE_IDENT_PARAM
                || els[body as int].kind != NODE_APPLY {
                Ok(None)
            } else {
                match (
                    nth_child(els, param as int, KindClass::Exactly(NODE_IDENT), 0),
                    nth_child(els, body as int, KindClass::Expr, 0),
                    nth_child(els, body as int, KindClass::Expr, 1),
                ) {
                    (Some(x), Some(f), Some(arg)) => {
                        if els[arg as int].kind != NODE_IDENT || text_of(t, x as int) != text_of(t, arg as int)
                            || els[f as int].kind != NODE_IDENT || text_of(t, f as int) == text_of(t, x as int) {
                            Ok(None)
                        } else {
                            fires(
                                fix_report(
                                    Lint::EtaReduction,
                                    els[i].range,
                                    lossy_text("Found eta-reduction: `".spec_bytes() + text_of(t, f as int) + "`".spec_bytes()),
                                    els[i].range,
                                    Some(text_of(t, f as int)),
                                ),
                            )
                        }
                    },
                    _ => Ok(None),
                }
            }
        },
        _ => Ok(None),
    }
}

pub fn validate(t: &SyntaxTree, i: usize) -> (r: Result<Option<Report>, InternalError>)
    requires
        wf_tree(t),
        i < t.elements@.len(),
    ensures
        outcome_view(r) == spec_report(t@, i as int),
{
    let param = match t.nth_child(i, KindClass::Param, 0) {
        Some(x) => x,
        None => return Ok(None),
    };
    let body = match t.nth_child(i, KindClass::Expr, 0) {
        Some(x) => x,
        None => return Ok(None),
    };
    if t.kind(i) != NODE_LAMBDA || t.kind(param) != NODE_IDENT_PARAM || t.kind(body) != NODE_APPLY {
        return Ok(None);
    }
    let x = match t.nth_child(param, KindClass::Exactly(NODE_IDENT), 0) {
        Some(y) => y,
        None => return Ok(None),
    };
    let f = match t.nth_child(body, KindClass::Expr, 0) {
        Some(y) => y,
        None => return Ok(None),
    };
    let arg = match t.nth_child(body, KindClass::Expr, 1) {
        Some(y) => y,
        None => return Ok(None),
    };
    // The function must be a lone identifier, and one that does not mention the argument.
    if t.kind(arg) != NODE_IDENT || !t.same_text(x, arg) || t.kind(f) != NODE_IDENT || t.same_text(f, x) {
        return Ok(None);
    }
    let mut m: Vec<u8> = Vec::new();
    append_bytes(&mut m, "Found eta-reduction: `".as_bytes());
    append_bytes(&mut m, t.text(f).as_slice());
    append_bytes(&mut m, "`".as_bytes());
    let at = t.range(i);
    Ok(Some(Lint::EtaReduction.fix_report(at, text_from_bytes(m.as_slice()), at, Some(t.text(f)))))
}

/// The ranges of what this rule reports lie within the text.
pub proof fn lemma_within(t: TreeModel, i: int)
    requires
        crate::syntax::ranges_in_text(t),
        0 <= i < t.elements.len(),
    ensures
        match spec_report(t, i) {
            Ok(Some(r)) => crate::lints::report_within(r, t.text.len() as int),
            _ => true,
        },
{
    broadcast use crate::syntax::lemma_nth_child_bound, crate::syntax::lemma_children_in_bound,
        crate::syntax::lemma_children_of_bound;
}

} // verus!
