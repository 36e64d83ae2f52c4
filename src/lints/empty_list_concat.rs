//! `[] ++ x` and `x ++ []`: concatenation with the empty list is a no-op.
use vstd::prelude::*;
use crate::lints::{fix_report, outcome_view, fires, Lint};
use crate::report::{InternalError, Report, ReportModel};
use crate::syntax::{
    TreeModel,
    children_in, nth_child, text_of, wf_tree, KindClass, SyntaxTree, NODE_BIN_OP, NODE_LIST,
    TOKEN_CONCAT,
};

verus! {

/// Element `x` is a list without items.
pub open spec fn is_empty_list(t: TreeModel, x: int) -> bool {
    t.elements[x].kind == NODE_LIST && children_in(t.elements, x, KindClass::Expr).len() == 0
}

/// On a `++` whose one side is `[]`: the whole is replaced by the other side.
pub open spec fn spec_report(t: TreeModel, i: int) -> Result<Option<ReportModel>, InternalError> {
    let els = t.elements;
    match (
        nth_child(els, i, KindClass::Expr, 0),
        nth_child(els, i, KindClass::Expr, 1),
        nth_child(els, i, KindClass::BinOpToken, 0),
    ) {
        (Some(lhs), Some(rhs), Some(op)) => {
            if els[i].kind != NODE_BIN_OP || els[op as int].kind != TOKEN_CONCAT {
                Ok(None)
            } else {
                let keep = if is_empty_list(t, lhs as int) {
                    Some(rhs)
                } else if is_empty_list(t, rhs as int) {
                    Some(lhs)
                } else {
                    None
                };
                match keep {
                    Some(x) => fires(
                        fix_report(
                            Lint::EmptyListConcat,
                            els[i].range,
                            "Concatenation with the empty list, `[]`, is a no-op"@,
                            els[i].range,
                            Some(text_of(t, x as int)),
                        ),
                    ),
                    None => Ok(None),
                }
            }
        },
        _ => Ok(None),
    }
}

fn is_empty_list_at(t: &SyntaxTree, x: usize) -> (r: bool)
    requires
        wf_tree(t),
        x < t.elements@.len(),
    ensures
        r == is_empty_list(t@, x as int),
{
    t.kind(x) == NODE_LIST && t.count_children(x, KindClass::Expr) == 0
}

pub fn validate(t: &SyntaxTree, i: usize) -> (r: Result<Option<Report>, InternalError>)
    requires
        wf_tree(t),
        i < t.elements@.len(),
    ensures
        outcome_view(r) == spec_report(t@, i as int),
{
    let lhs = match t.nth_child(i, KindClass::Expr, 0) {
        Some(x) => x,
        None => return Ok(None),
    };
    let rhs = match t.nth_child(i, KindClass::Expr, 1) {
        Some(x) => x,
        None => return Ok(None),
    };
    let op = match t.nth_child(i, KindClass::BinOpToken, 0) {
        Some(x) => x,
        None => return Ok(None),
    };
    if t.kind(i) != NODE_BIN_OP || t.kind(op) != TOKEN_CONCAT {
        return Ok(None);
    }
    let keep = if is_empty_list_at(t, lhs) {
        rhs
    } else if is_empty_list_at(t, rhs) {
        lhs
    } else {
        return Ok(None);
    };
    let at = t.range(i);
    let message = "Concatenation with the empty list, `[]`, is a no-op".to_owned();
    Ok(Some(Lint::EmptyListConcat.fix_report(at, message, at, Some(t.text(keep)))))
}

/// The ranges of what this rule reports lie within the text.
pub proof fn lemma_within(t: TreeModel, i: int)
    requires
        crate::syntax::ranges_in_text(t),
        0 <= i < t.elements.len(),
    ensures
        match spec_report(t, i) {
            Ok(Some(r)) => crate::lints::report_within(r, t.text.len() as int),
            _ => true,
        },
{
    broadcast use crate::syntax::lemma_nth_child_bound, crate::syntax::lemma_children_in_bound,
        crate::syntax::lemma_children_of_bound;
}

} // verus!
