//! `!(a == b)`: written `a != b`.
use vstd::prelude::*;
use vstd::string::StringSliceAdditionalSpecFns;
use crate::lints::{fix_report, outcome_view, fires, Lint};
use crate::make::{binary, synthesized};
use crate::report::{InternalError, Report, ReportModel};
use crate::syntax::{
    TreeModel,
    nth_child, text_of, wf_tree, KindClass, SyntaxTree, NODE_BIN_OP, NODE_PAREN, NODE_UNARY_OP,
    TOKEN_EQUAL, TOKEN_INVERT,
};

verus! {

/// On `!(lhs == rhs)`: the whole is replaced by `lhs != rhs`.
pub open spec fn spec_report(t: TreeModel, i: int) -> Result<Option<ReportModel>, InternalError> {
    let els = t.elements;
    if els[i].kind != NODE_UNARY_OP {
        Ok(None)
    } else {
        match (nth_child(els, i, KindClass::UnaryOpToken, 0), nth_child(els, i, KindClass::Expr, 0)) {
            (Some(op), Some(value)) => {
                if els[op as int].kind != TOKEN_INVERT || els[value as int].kind != NODE_PAREN {
                    Ok(None)
                } else {
                    match nth_child(els, value as int, KindClass::Expr, 0) {
                        Some(inner) => {
                            if els[inner as int].kind != NODE_BIN_OP {
                                Ok(None)
                            } else {
                                match (
                                    nth_child(els, inner as int, KindClass::BinOpToken, 0),
                                    nth_child(els, inner as int, KindClass::Expr, 0),
                                    nth_child(els, inner as int, KindClass::Expr, 1),
                                ) {
                                    (Some(bop), Some(lhs), Some(rhs)) => {
                                        if els[bop as int].kind != TOKEN_EQUAL {
                                            Ok(None)
                                        } else {
                                            match synthesized(
                                                text_of(t, lhs as int) + " ".spec_bytes()
                                                    + "!=".spec_bytes() + " ".spec_bytes()
                                                    + text_of(t, rhs as int),
                                                NODE_BIN_OP,
                                            ) {
                                                Some(fix) => fires(
                                                    fix_report(
                                                        Lint::BoolSimplification,
                                                        els[i].range,
                                                        "Try `!=` instead of `!(... == ...)`"@,
                                                        els[i].range,
                                                        Some(fix),
                                                    ),
                                                ),
                                                None => Err(InternalError::Synthesis),
                                            }
                                        }
                                    },
                                    _ => Ok(None),
                                }
                            }
                        },
                        None => Ok(None),
                    }
                }
            },
            _ => Ok(None),
        }
    }
}

pub fn validate(t: &SyntaxTree, i: usize) -> (r: Result<Option<Report>, InternalError>)
    requires
        wf_tree(t),
        i < t.elements@.len(),
    ensures
        outcome_view(r) == spec_report(t@, i as int),
{
    if t.kind(i) != NODE_UNARY_OP {
        return Ok(None);
    }
    let op = match t.nth_child(i, KindClass::UnaryOpToken, 0) {
        Some(x) => x,
        None => return Ok(None),
    };
    let value = match t.nth_child(i, KindClass::Expr, 0) {
        Some(x) => x,
        None => return Ok(None),
    };
    if t.kind(op) != TOKEN_INVERT || t.kind(value) != NODE_PAREN {
        return Ok(None);
    }
    let inner = match t.nth_child(value, KindClass::Expr, 0) {
        Some(x) => x,
        None => return Ok(None),
    };
    if t.kind(inner) != NODE_BIN_OP {
        return Ok(None);
    }
    let bop = match t.nth_child(inner, KindClass::BinOpToken, 0) {
        Some(x) => x,
        None => return Ok(None),
    };
    let lhs = match t.nth_child(inner, KindClass::Expr, 0) {
        Some(x) => x,
        None => return Ok(None),
    };
    let rhs = match t.nth_child(inner, KindClass::Expr, 1) {
        Some(x) => x,
        None => return Ok(None),
    };
    if t.kind(bop) != TOKEN_EQUAL {
        return Ok(None);
    }
    let fix = match binary(t.text(lhs).as_slice(), "!=", t.text(rhs).as_slice()) {
        Some(f) => f,
        None => return Err(InternalError::Synthesis),
    };
    let at = t.range(i);
    let message = "Try `!=` instead of `!(... == ...)`".to_owned();
    Ok(Some(Lint::BoolSimplification.fix_report(at, message, at, Some(fix))))
}

/// The ranges of what this rule reports lie within the text.
pub proof fn lemma_within(t: TreeModel, i: int)
    requires
        crate::syntax::ranges_in_text(t),
        0 <= i < t.elements.len(),
    ensures
        match spec_report(t, i) {
            Ok(Some(r)) => crate::lints::report_within(r, t.text.len() as int),
            _ => true,
        },
{
    broadcast use crate::syntax::lemma_nth_child_bound, crate::syntax::lemma_children_in_bound,
        crate::syntax::lemma_children_of_bound;
}

} // verus!
