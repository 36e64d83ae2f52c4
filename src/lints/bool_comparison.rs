//! `x == true`, `x != false` and the like: the comparison with a boolean
//! literal is dropped, and negated where needed.
use vstd::prelude::*;
use vstd::string::StringSliceAdditionalSpecFns;
use crate::lints::{fix_report, outcome_view, fires, Lint};
use crate::make::{parenthesize, synthesized, unary_not};
use crate::report::{InternalError, append_bytes, lossy_text, text_from_bytes, Report, ReportModel};
use crate::syntax::{
    TreeModel,
    nth_child, text_of, wf_tree, KindClass, SyntaxTree, NODE_APPLY, NODE_BIN_OP, NODE_HAS_ATTR,
    NODE_IDENT, NODE_PAREN, NODE_UNARY_OP, TOKEN_EQUAL, TOKEN_NOT_EQUAL,
};

verus! {

/// The boolean that element `x` names, if it is the identifier `true` or `false`.
pub open spec fn boolean_ident(t: TreeModel, x: int) -> Option<bool> {
    if t.elements[x].kind != NODE_IDENT {
        None
    } else if text_of(t, x) == "true".spec_bytes() {
        Some(true)
    } else if text_of(t, x) == "false".spec_bytes() {
        Some(false)
    } else {
        None
    }
}

/// `!x`, with `x` put in parentheses unless it is an application, a
/// parenthesized expression, an identifier or an attribute test.
pub open spec fn negated(t: TreeModel, x: int) -> Option<Seq<u8>> {
    let k = t.elements[x].kind;
    if k == NODE_APPLY || k == NODE_PAREN || k == NODE_IDENT || k == NODE_HAS_ATTR {
        synthesized("!".spec_bytes() + text_of(t, x), NODE_UNARY_OP)
    } else {
        match synthesized("(".spec_bytes() + text_of(t, x) + ")".spec_bytes(), NODE_PAREN) {
            Some(p) => synthesized("!".spec_bytes() + p, NODE_UNARY_OP),
            None => None,
        }
    }
}

pub open spec fn bool_text(b: bool) -> Seq<u8> {
    if b {
        "true".spec_bytes()
    } else {
        "false".spec_bytes()
    }
}

/// On `lhs == rhs` or `lhs != rhs` where a side is `true` or `false` (the left
/// one taken first): the comparison is replaced by the other side where it
/// holds when that side is true, and by its negation otherwise.
pub open spec fn spec_report(t: TreeModel, i: int) -> Result<Option<ReportModel>, InternalError> {
    let els = t.elements;
    match (
        nth_child(els, i, KindClass::Expr, 0),
        nth_child(els, i, KindClass::Expr, 1),
        nth_child(els, i, KindClass::BinOpToken, 0),
    ) {
        (Some(lhs), Some(rhs), Some(op)) => {
            let ok = els[op as int].kind;
            if els[i].kind != NODE_BIN_OP || (ok != TOKEN_EQUAL && ok != TOKEN_NOT_EQUAL) {
                Ok(None)
            } else {
                let sides: Option<(bool, usize)> = match (boolean_ident(t, lhs as int), boolean_ident(t, rhs as int)) {
                    (None, None) => None,
                    (None, Some(b)) => Some((b, lhs)),
                    (Some(b), _) => Some((b, rhs)),
                };
                match sides {
                    None => Ok(None),
                    Some((b, other)) => {
                        let fix = if b == (ok == TOKEN_EQUAL) {
                            Some(text_of(t, other as int))
                        } else {
                            negated(t, other as int)
                        };
                        match fix {
                            Some(f) => fires(
                                fix_report(
                                    Lint::BoolComparison,
                                    els[i].range,
                                    lossy_text(
                                        "Comparing `".spec_bytes() + text_of(t, other as int)
                                            + "` with boolean literal `".spec_bytes() + bool_text(b)
                                            + "`".spec_bytes(),
                                    ),
                                    els[i].range,
                                    Some(f),
                                ),
                            ),
                            None => Err(InternalError::Synthesis),
                        }
                    },
                }
            }
        },
        _ => Ok(None),
    }
}

fn boolean_at(t: &SyntaxTree, x: usize) -> (r: Option<bool>)
    requires
        wf_tree(t),
        x < t.elements@.len(),
    ensures
        r == boolean_ident(t@, x as int),
{
    if t.kind(x) != NODE_IDENT {
        None
    } else if t.text_is(x, "true") {
        Some(true)
    } else if t.text_is(x, "false") {
        Some(false)
    } else {
        None
    }
}

fn negate(t: &SyntaxTree, x: usize) -> (r: Option<Vec<u8>>)
    requires
        wf_tree(t),
        x < t.elements@.len(),
    ensures
        crate::make::opt_view(r) == negated(t@, x as int),
{
    let k = t.kind(x);
    let text = t.text(x);
    if k == NODE_APPLY || k == NODE_PAREN || k == NODE_IDENT || k == NODE_HAS_ATTR {
        unary_not(text.as_slice())
    } else {
        match parenthesize(text.as_slice()) {
            Some(p) => unary_not(p.as_slice()),
            None => None,
        }
    }
}

pub fn validate(t: &SyntaxTree, i: usize) -> (r: Result<Option<Report>, InternalError>)
    requires
        wf_tree(t),
        i < t.elements@.len(),
    ensures
        outcome_view(r) == spec_report(t@, i as int),
{
    let lhs = match t.nth_child(i, KindClass::Expr, 0) {
        Some(x) => x,
        None => return Ok(None),
    };
    let rhs = match t.nth_child(i, KindClass::Expr, 1) {
        Some(x) => x,
        None => return Ok(None),
    };
    let op = match t.nth_child(i, KindClass::BinOpToken, 0) {
        Some(x) => x,
        None => return Ok(None),
    };
    let ok = t.kind(op);
    if t.kind(i) != NODE_BIN_OP || (ok != TOKEN_EQUAL && ok != TOKEN_NOT_EQUAL) {
        return Ok(None);
    }
    let (b, other) = match (boolean_at(t, lhs), boolean_at(t, rhs)) {
        (None, None) => return Ok(None),
        (None, Some(b)) => (b, lhs),
        (Some(b), _) => (b, rhs),
    };
    let fix = if b == (ok == TOKEN_EQUAL) {
        t.text(other)
    } else {
        match negate(t, other) {
            Some(f) => f,
            None => return Err(InternalError::Synthesis),
        }
    };
    let bt = if b {
        "true"
    } else {
        "false"
    };
    let mut m: Vec<u8> = Vec::new();
    append_bytes(&mut m, "Comparing `".as_bytes());
    append_bytes(&mut m, t.text(other).as_slice());
    append_bytes(&mut m, "` with boolean literal `".as_bytes());
    append_bytes(&mut m, bt.as_bytes());
    append_bytes(&mut m, "`".as_bytes());
    let at = t.range(i);
    Ok(Some(Lint::BoolComparison.fix_report(at, text_from_bytes(m.as_slice()), at, Some(fix))))
}

/// The ranges of what this rule reports lie within the text.
pub proof fn lemma_within(t: TreeModel, i: int)
    requires
        crate::syntax::ranges_in_text(t),
        0 <= i < t.elements.len(),
    ensures
        match spec_report(t, i) {
            Ok(Some(r)) => crate::lints::report_within(r, t.text.len() as int),
            _ => true,
        },
{
    broadcast use crate::syntax::lemma_nth_child_bound, crate::syntax::lemma_children_in_bound,
        crate::syntax::lemma_children_of_bound;
}

} // verus!
