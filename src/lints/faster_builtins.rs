//! `lib.groupBy` and `lib.zipAttrsWith`: from the language versions that have
//! them as builtins, the builtins are preferred.
use vstd::prelude::*;
use vstd::string::StringSliceAdditionalSpecFns;
use crate::lints::{fix_report, lint_gate, outcome_view, fires, Lint};
use crate::make::{ident, select, synthesized};
use crate::report::{InternalError, lossy_text, text_from_bytes, Report, ReportModel};
use crate::session::{version_at_least, SessionInfo, Version};
use crate::syntax::{
    TreeModel,
    nth_child, text_of, wf_tree, KindClass, SyntaxTree, NODE_ATTRPATH, NODE_SELECT,
};
use crate::make::cat3;

verus! {

/// The attribute that rule `l` looks for.
pub open spec fn target_attr(l: Lint) -> Seq<u8> {
    if l == Lint::FasterGroupBy {
        "groupBy".spec_bytes()
    } else {
        "zipAttrsWith".spec_bytes()
    }
}

/// On `set.attr`, where `attr` is the rule's attribute and `set` is not
/// `builtins`, under a version from the rule's gate on: the whole is replaced by
/// `builtins.attr`.
pub open spec fn spec_report(t: TreeModel, i: int, v: Version, l: Lint) -> Result<Option<ReportModel>, InternalError> {
    let els = t.elements;
    match (lint_gate(l), nth_child(els, i, KindClass::Expr, 0), nth_child(els, i, KindClass::Exactly(NODE_ATTRPATH), 0)) {
        (Some(gate), Some(set), Some(attr)) => {
            if !version_at_least(v, gate) || els[i].kind != NODE_SELECT || text_of(t, set as int)
                == "builtins".spec_bytes() || text_of(t, attr as int) != target_attr(l) {
                Ok(None)
            } else {
                match synthesized("builtins".spec_bytes(), crate::syntax::NODE_IDENT) {
                    Some(b) => match synthesized(
                        b + ".".spec_bytes() + text_of(t, attr as int),
                        NODE_SELECT,
                    ) {
                        Some(fix) => fires(
                            fix_report(
                                l,
                                els[i].range,
                                lossy_text(
                                    "Prefer `builtins.".spec_bytes() + target_attr(l)
                                        + "` over `".spec_bytes() + text_of(t, set as int) + ".".spec_bytes()
                                        + target_attr(l) + "`".spec_bytes(),
                                ),
                                els[i].range,
                                Some(fix),
                            ),
                        ),
                        None => Err(InternalError::Synthesis),
                    },
                    None => Err(InternalError::Synthesis),
                }
            }
        },
        _ => Ok(None),
    }
}

pub fn validate(t: &SyntaxTree, i: usize, sess: &SessionInfo, l: Lint) -> (r: Result<Option<Report>, InternalError>)
    requires
        wf_tree(t),
        i < t.elements@.len(),
        l == Lint::FasterGroupBy || l == Lint::FasterZipAttrsWith,
    ensures
        outcome_view(r) == spec_report(t@, i as int, sess.nix_version, l),
{
    let gate = if l == Lint::FasterGroupBy {
        Version { major: 2, minor: 5, patch: None }
    } else {
        Version { major: 2, minor: 6, patch: None }
    };
    let target = if l == Lint::FasterGroupBy {
        "groupBy"
    } else {
        "zipAttrsWith"
    };
    let set = match t.nth_child(i, KindClass::Expr, 0) {
        Some(x) => x,
        None => return Ok(None),
    };
    let attr = match t.nth_child(i, KindClass::Exactly(NODE_ATTRPATH), 0) {
        Some(x) => x,
        None => return Ok(None),
    };
    if !sess.version().at_least(&gate) || t.kind(i) != NODE_SELECT || t.text_is(set, "builtins")
        || !t.text_is(attr, target) {
        return Ok(None);
    }
    let b = match ident("builtins") {
        Some(b) => b,
        None => return Err(InternalError::Synthesis),
    };
    let attr_text = t.text(attr);
    let fix = match select(b.as_slice(), attr_text.as_slice()) {
        Some(f) => f,
        None => return Err(InternalError::Synthesis),
    };
    let mut m = cat3("Prefer `builtins.".as_bytes(), target.as_bytes(), "` over `".as_bytes());
    crate::report::append_bytes(&mut m, t.text(set).as_slice());
    crate::report::append_bytes(&mut m, ".".as_bytes());
    crate::report::append_bytes(&mut m, target.as_bytes());
    crate::report::append_bytes(&mut m, "`".as_bytes());
    let message = text_from_bytes(m.as_slice());
    let at = t.range(i);
    Ok(Some(l.fix_report(at, message, at, Some(fix))))
}

/// The ranges of what this rule reports lie within the text.
pub proof fn lemma_within(t: TreeModel, i: int, v: Version, l: Lint)
    requires
        crate::syntax::ranges_in_text(t),
        0 <= i < t.elements.len(),
    ensures
        match spec_report(t, i, v, l) {
            Ok(Some(r)) => crate::lints::report_within(r, t.text.len() as int),
            _ => true,
        },
{
    broadcast use crate::syntax::lemma_nth_child_bound, crate::syntax::lemma_children_in_bound,
        crate::syntax::lemma_children_of_bound;
}

} // verus!
