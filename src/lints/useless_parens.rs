//! Parentheses that can go: around a binding's value, around a let body, and
//! around a primitive expression.
use vstd::prelude::*;
use crate::lints::{fix_report, outcome_view, fires, Lint};
use crate::report::{InternalError, Report, ReportModel};
use crate::syntax::{
    TreeModel,
    nth_child, text_of, wf_tree, KindClass, SyntaxTree, NODE_ATTRPATH_VALUE, NODE_ATTR_SET,
    NODE_IDENT, NODE_LET_IN, NODE_LIST, NODE_PAREN, NODE_SELECT, NODE_STRING, TOKEN_OR,
};

verus! {

/// Element `x` is a list, a parenthesized expression, a string, an attribute
/// set, an identifier, or a selection without `or`.
pub open spec fn is_primitive(els: Seq<crate::syntax::Element>, x: int) -> bool {
    let k = els[x].kind;
    k == NODE_LIST || k == NODE_PAREN || k == NODE_STRING || k == NODE_ATTR_SET || k == NODE_IDENT
        || (k == NODE_SELECT && nth_child(els, x, KindClass::Exactly(TOKEN_OR), 0) is None)
}

/// The parenthesized child `p` of a binding or a let-in, replaced by what it holds.
pub open spec fn unwrap_child(t: TreeModel, p: Option<usize>, message: Seq<char>) -> Result<Option<ReportModel>, InternalError> {
    match p {
        Some(v) => if t.elements[v as int].kind != NODE_PAREN {
            Ok(None)
        } else {
            match nth_child(t.elements, v as int, KindClass::Expr, 0) {
                Some(inner) => fires(
                    fix_report(
                        Lint::UselessParens,
                        t.elements[v as int].range,
                        message,
                        t.elements[v as int].range,
                        Some(text_of(t, inner as int)),
                    ),
                ),
                None => Ok(None),
            }
        },
        None => Ok(None),
    }
}

/// On a binding whose value is parenthesized, a let-in whose body is, or
/// parentheses around a primitive expression elsewhere: the parentheses go.
pub open spec fn spec_report(t: TreeModel, i: int) -> Result<Option<ReportModel>, InternalError> {
    let els = t.elements;
    let k = els[i].kind;
    if k == NODE_ATTRPATH_VALUE {
        unwrap_child(t, nth_child(els, i, KindClass::Expr, 0), "Useless parentheses around value in binding"@)
    } else if k == NODE_LET_IN {
        unwrap_child(t, nth_child(els, i, KindClass::Expr, 0), "Useless parentheses around body of `let` expression"@)
    } else if k == NODE_PAREN {
        match (els[i].parent, nth_child(els, i, KindClass::Expr, 0)) {
            (Some(p), Some(inner)) => {
                let pk = els[p as int].kind;
                if pk == NODE_ATTRPATH_VALUE || pk == NODE_LET_IN || !is_primitive(els, inner as int) {
                    Ok(None)
                } else {
                    fires(
                        fix_report(
                            Lint::UselessParens,
                            els[i].range,
                            "Useless parentheses around primitive expression"@,
                            els[i].range,
                            Some(text_of(t, inner as int)),
                        ),
                    )
                }
            },
            _ => Ok(None),
        }
    } else {
        Ok(None)
    }
}

fn primitive_at(t: &SyntaxTree, x: usize) -> (r: bool)
    requires
        wf_tree(t),
        x < t.elements@.len(),
    ensures
        r == is_primitive(t.elements@, x as int),
{
    let k = t.kind(x);
    k == NODE_LIST || k == NODE_PAREN || k == NODE_STRING || k == NODE_ATTR_SET || k == NODE_IDENT
        || (k == NODE_SELECT && t.nth_child(x, KindClass::Exactly(TOKEN_OR), 0).is_none())
}

fn unwrap_child_at(t: &SyntaxTree, p: Option<usize>, message: &str) -> (r: Result<Option<Report>, InternalError>)
    requires
        wf_tree(t),
        p matches Some(v) ==> v < t.elements@.len(),
    ensures
        outcome_view(r) == unwrap_child(t@, p, message@),
{
    let v = match p {
        Some(v) => v,
        None => return Ok(None),
    };
    if t.kind(v) != NODE_PAREN {
        return Ok(None);
    }
    let inner = match t.nth_child(v, KindClass::Expr, 0) {
        Some(x) => x,
        None => return Ok(None),
    };
    let at = t.range(v);
    Ok(Some(Lint::UselessParens.fix_report(at, message.to_owned(), at, Some(t.text(inner)))))
}

pub fn validate(t: &SyntaxTree, i: usize) -> (r: Result<Option<Report>, InternalError>)
    requires
        wf_tree(t),
        i < t.elements@.len(),
    ensures
        outcome_view(r) == spec_report(t@, i as int),
{
    let k = t.kind(i);
    if k == NODE_ATTRPATH_VALUE {
        unwrap_child_at(t, t.nth_child(i, KindClass::Expr, 0), "Useless parentheses around value in binding")
    } else if k == NODE_LET_IN {
        unwrap_child_at(t, t.nth_child(i, KindClass::Expr, 0), "Useless parentheses around body of `let` expression")
    } else if k == NODE_PAREN {
        let p = match t.parent(i) {
            Some(p) => p,
            None => return Ok(None),
        };
        let inner = match t.nth_child(i, KindClass::Expr, 0) {
            Some(x) => x,
            None => return Ok(None),
        };
        assert(i < t.elements@[i as int].subtree_end);
        let pk = t.kind(p);
        if pk == NODE_ATTRPATH_VALUE || pk == NODE_LET_IN || !primitive_at(t, inner) {
            return Ok(None);
        }
        let at = t.range(i);
        let message = "Useless parentheses around primitive expression".to_owned();
        Ok(Some(Lint::UselessParens.fix_report(at, message, at, Some(t.text(inner)))))
    } else {
        Ok(None)
    }
}

/// The ranges of what this rule reports lie within the text.
pub proof fn lemma_within(t: TreeModel, i: int)
    requires
        crate::syntax::ranges_in_text(t),
        0 <= i < t.elements.len(),
    ensures
        match spec_report(t, i) {
            Ok(Some(r)) => crate::lints::report_within(r, t.text.len() as int),
            _ => true,
        },
{
    broadcast use crate::syntax::lemma_nth_child_bound, crate::syntax::lemma_children_in_bound,
        crate::syntax::lemma_children_of_bound;
}

} // verus!
