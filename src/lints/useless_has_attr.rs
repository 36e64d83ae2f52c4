//! `if s ? a then s.a else d`: written `s.a or d`.
use vstd::prelude::*;
use vstd::string::StringSliceAdditionalSpecFns;
use crate::lints::{fix_report, outcome_view, fires, Lint};
use crate::make::{or_default, parenthesize, select, synthesized};
use crate::report::{InternalError, append_bytes, lossy_text, text_from_bytes, Report, ReportModel};
use crate::syntax::{
    TreeModel,
    nth_child, text_of, wf_tree, KindClass, SyntaxTree, NODE_ATTRPATH, NODE_ATTR_SET, NODE_HAS_ATTR,
    NODE_IDENT, NODE_IF_ELSE, NODE_LIST, NODE_PAREN, NODE_SELECT, NODE_STRING,
};

verus! {

/// The default as it can stand after `or`: as it is where it binds tightly, and
/// in parentheses otherwise.
pub open spec fn default_text(t: TreeModel, d: int) -> Option<Seq<u8>> {
    let k = t.elements[d].kind;
    if k == NODE_LIST || k == NODE_PAREN || k == NODE_STRING || k == NODE_ATTR_SET || k == NODE_IDENT
        || k == NODE_SELECT {
        Some(text_of(t, d))
    } else {
        synthesized("(".spec_bytes() + text_of(t, d) + ")".spec_bytes(), NODE_PAREN)
    }
}

/// On `if set ? path then set.path else d`, the body written exactly as
/// `set.path`: replaced by `set.path or d`.
pub open spec fn spec_report(t: TreeModel, i: int) -> Result<Option<ReportModel>, InternalError> {
    let els = t.elements;
    match (
        nth_child(els, i, KindClass::Expr, 0),
        nth_child(els, i, KindClass::Expr, 2),
        nth_child(els, i, KindClass::Expr, 1),
    ) {
        (Some(cond), Some(d), Some(body)) => {
            if els[i].kind != NODE_IF_ELSE || els[cond as int].kind != NODE_HAS_ATTR {
                Ok(None)
            } else {
                match (
                    nth_child(els, cond as int, KindClass::Expr, 0),
                    nth_child(els, cond as int, KindClass::Exactly(NODE_ATTRPATH), 0),
                ) {
                    (Some(set), Some(path)) => {
                        let s = text_of(t, set as int);
                        let p = text_of(t, path as int);
                        if els[body as int].kind != NODE_SELECT {
                            Ok(None)
                        } else {
                            match synthesized(s + ".".spec_bytes() + p, NODE_SELECT) {
                                None => Err(InternalError::Synthesis),
                                Some(expected) => if expected != text_of(t, body as int) {
                                    Ok(None)
                                } else {
                                    match default_text(t, d as int) {
                                        Some(dt) => match synthesized(
                                            s + ".".spec_bytes() + p + " or ".spec_bytes() + dt,
                                            NODE_SELECT,
                                        ) {
                                            Some(fix) => fires(
                                                fix_report(
                                                    Lint::UselessHasAttr,
                                                    els[i].range,
                                                    lossy_text(
                                                        "Consider using `".spec_bytes() + fix
                                                            + "` instead of this `if` expression".spec_bytes(),
                                                    ),
                                                    els[i].range,
                                                    Some(fix),
                                                ),
                                            ),
                                            None => Err(InternalError::Synthesis),
                                        },
                                        None => Err(InternalError::Synthesis),
                                    }
                                },
                            }
                        }
                    },
                    _ => Ok(None),
                }
            }
        },
        _ => Ok(None),
    }
}

pub fn validate(t: &SyntaxTree, i: usize) -> (r: Result<Option<Report>, InternalError>)
    requires
        wf_tree(t),
        i < t.elements@.len(),
    ensures
        outcome_view(r) == spec_report(t@, i as int),
{
    let cond = match t.nth_child(i, KindClass::Expr, 0) {
        Some(x) => x,
        None => return Ok(None),
    };
    let d = match t.nth_child(i, KindClass::Expr, 2) {
        Some(x) => x,
        None => return Ok(None),
    };
    let body = match t.nth_child(i, KindClass::Expr, 1) {
        Some(x) => x,
        None => return Ok(None),
    };
    if t.kind(i) != NODE_IF_ELSE || t.kind(cond) != NODE_HAS_ATTR {
        return Ok(None);
    }
    let set = match t.nth_child(cond, KindClass::Expr, 0) {
        Some(x) => x,
        None => return Ok(None),
    };
    let path = match t.nth_child(cond, KindClass::Exactly(NODE_ATTRPATH), 0) {
        Some(x) => x,
        None => return Ok(None),
    };
    let s = t.text(set);
    let p = t.text(path);
    if t.kind(body) != NODE_SELECT {
        return Ok(None);
    }
    let expected = match select(s.as_slice(), p.as_slice()) {
        Some(e) => e,
        None => return Err(InternalError::Synthesis),
    };
    if !crate::syntax::bytes_eq(expected.as_slice(), t.text(body).as_slice()) {
        return Ok(None);
    }
    let k = t.kind(d);
    let dt = if k == NODE_LIST || k == NODE_PAREN || k == NODE_STRING || k == NODE_ATTR_SET || k == NODE_IDENT
        || k == NODE_SELECT {
        t.text(d)
    } else {
        match parenthesize(t.text(d).as_slice()) {
            Some(x) => x,
            None => return Err(InternalError::Synthesis),
        }
    };
    let fix = match or_default(s.as_slice(), p.as_slice(), dt.as_slice()) {
        Some(x) => x,
        None => return Err(InternalError::Synthesis),
    };
    let mut m: Vec<u8> = Vec::new();
    append_bytes(&mut m, "Consider using `".as_bytes());
    append_bytes(&mut m, fix.as_slice());
    append_bytes(&mut m, "` instead of this `if` expression".as_bytes());
    let at = t.range(i);
    Ok(Some(Lint::UselessHasAttr.fix_report(at, text_from_bytes(m.as_slice()), at, Some(fix))))
}

/// The ranges of what this rule reports lie within the text.
pub proof fn lemma_within(t: TreeModel, i: int)
    requires
        crate::syntax::ranges_in_text(t),
        0 <= i < t.elements.len(),
    ensures
        match spec_report(t, i) {
            Ok(Some(r)) => crate::lints::report_within(r, t.text.len() as int),
            _ => true,
        },
{
    broadcast use crate::syntax::lemma_nth_child_bound, crate::syntax::lemma_children_in_bound,
        crate::syntax::lemma_children_of_bound;
}

} // verus!
