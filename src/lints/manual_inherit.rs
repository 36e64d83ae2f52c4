//! `a = a;` and `a = s.a;`: bindings better written with `inherit`.
use vstd::prelude::*;
use vstd::string::StringSliceAdditionalSpecFns;
use crate::lints::{fix_report, outcome_view, fires, single_ident_attr, Lint};
use crate::make::{inherit_from_stmt, inherit_stmt, spaced, synthesized};
use crate::report::{InternalError, Report, ReportModel};
use crate::syntax::{
    TreeModel,
    nth_child, text_of, wf_tree, KindClass, SyntaxTree, NODE_ATTRPATH, NODE_ATTRPATH_VALUE,
    NODE_IDENT, NODE_INHERIT, NODE_SELECT,
};

verus! {

/// The identifier that the binding `i` assigns, where its path is one identifier.
pub open spec fn bound_ident(t: TreeModel, i: int) -> Option<usize> {
    if t.elements[i].kind != NODE_ATTRPATH_VALUE {
        None
    } else {
        match nth_child(t.elements, i, KindClass::Exactly(NODE_ATTRPATH), 0) {
            Some(path) => single_ident_attr(t.elements, path as int),
            None => None,
        }
    }
}

/// On `a = a;`: replaced by `inherit a;`.
pub open spec fn spec_report(t: TreeModel, i: int) -> Result<Option<ReportModel>, InternalError> {
    let els = t.elements;
    match (bound_ident(t, i), nth_child(els, i, KindClass::Expr, 0)) {
        (Some(key), Some(value)) => {
            if els[value as int].kind != NODE_IDENT || text_of(t, key as int) != text_of(t, value as int) {
                Ok(None)
            } else {
                match synthesized(
                    "{ inherit".spec_bytes() + spaced(seq![text_of(t, key as int)]) + "; }".spec_bytes(),
                    NODE_INHERIT,
                ) {
                    Some(fix) => fires(
                        fix_report(
                            Lint::ManualInherit,
                            els[i].range,
                            "This assignment is better written with `inherit`"@,
                            els[i].range,
                            Some(fix),
                        ),
                    ),
                    None => Err(InternalError::Synthesis),
                }
            }
        },
        _ => Ok(None),
    }
}

/// On `a = s.a;`, where the selected path is the one identifier `a`: replaced by
/// `inherit (s) a;`.
pub open spec fn spec_report_from(t: TreeModel, i: int) -> Result<Option<ReportModel>, InternalError> {
    let els = t.elements;
    match (bound_ident(t, i), nth_child(els, i, KindClass::Expr, 0)) {
        (Some(key), Some(value)) => {
            if els[value as int].kind != NODE_SELECT {
                Ok(None)
            } else {
                match (
                    nth_child(els, value as int, KindClass::Exactly(NODE_ATTRPATH), 0),
                    nth_child(els, value as int, KindClass::Expr, 0),
                ) {
                    (Some(path), Some(set)) => match single_ident_attr(els, path as int) {
                        Some(index) => if text_of(t, key as int) != text_of(t, index as int) {
                            Ok(None)
                        } else {
                            match synthesized(
                                "{ inherit (".spec_bytes() + text_of(t, set as int) + ")".spec_bytes()
                                    + spaced(seq![text_of(t, key as int)]) + "; }".spec_bytes(),
                                NODE_INHERIT,
                            ) {
                                Some(fix) => fires(
                                    fix_report(
                                        Lint::ManualInheritFrom,
                                        els[i].range,
                                        "This assignment is better written with `inherit`"@,
                                        els[i].range,
                                        Some(fix),
                                    ),
                                ),
                                None => Err(InternalError::Synthesis),
                            }
                        },
                        None => Ok(None),
                    },
                    _ => Ok(None),
                }
            }
        },
        _ => Ok(None),
    }
}

fn bound_ident_at(t: &SyntaxTree, i: usize) -> (r: Option<usize>)
    requires
        wf_tree(t),
        i < t.elements@.len(),
    ensures
        r == bound_ident(t@, i as int),
        r matches Some(x) ==> x < t.elements@.len(),
{
    if t.kind(i) != NODE_ATTRPATH_VALUE {
        return None;
    }
    match t.nth_child(i, KindClass::Exactly(NODE_ATTRPATH), 0) {
        Some(path) => crate::lints::single_ident_attr_at(t, path),
        None => None,
    }
}

pub fn validate(t: &SyntaxTree, i: usize) -> (r: Result<Option<Report>, InternalError>)
    requires
        wf_tree(t),
        i < t.elements@.len(),
    ensures
        outcome_view(r) == spec_report(t@, i as int),
{
    let key = match bound_ident_at(t, i) {
        Some(x) => x,
        None => return Ok(None),
    };
    let value = match t.nth_child(i, KindClass::Expr, 0) {
        Some(x) => x,
        None => return Ok(None),
    };
    if t.kind(value) != NODE_IDENT || !t.same_text(key, value) {
        return Ok(None);
    }
    let kt = t.text(key);
    let ghost kv = kt@;
    let names = vec![kt];
    assert(names.deep_view()[0] == kv);
    assert(names.deep_view() =~= seq![text_of(t@, key as int)]);
    let fix = match inherit_stmt(&names) {
        Some(f) => f,
        None => return Err(InternalError::Synthesis),
    };
    let at = t.range(i);
    let message = "This assignment is better written with `inherit`".to_owned();
    Ok(Some(Lint::ManualInherit.fix_report(at, message, at, Some(fix))))
}

pub fn validate_from(t: &SyntaxTree, i: usize) -> (r: Result<Option<Report>, InternalError>)
    requires
        wf_tree(t),
        i < t.elements@.len(),
    ensures
        outcome_view(r) == spec_report_from(t@, i as int),
{
    let key = match bound_ident_at(t, i) {
        Some(x) => x,
        None => return Ok(None),
    };
    let value = match t.nth_child(i, KindClass::Expr, 0) {
        Some(x) => x,
        None => return Ok(None),
    };
    if t.kind(value) != NODE_SELECT {
        return Ok(None);
    }
    let path = match t.nth_child(value, KindClass::Exactly(NODE_ATTRPATH), 0) {
        Some(x) => x,
        None => return Ok(None),
    };
    let set = match t.nth_child(value, KindClass::Expr, 0) {
        Some(x) => x,
        None => return Ok(None),
    };
    let index = match crate::lints::single_ident_attr_at(t, path) {
        Some(x) => x,
        None => return Ok(None),
    };
    if !t.same_text(key, index) {
        return Ok(None);
    }
    let kt = t.text(key);
    let ghost kv = kt@;
    let names = vec![kt];
    assert(names.deep_view()[0] == kv);
    assert(names.deep_view() =~= seq![text_of(t@, key as int)]);
    let fix = match inherit_from_stmt(t.text(set).as_slice(), &names) {
        Some(f) => f,
        None => return Err(InternalError::Synthesis),
    };
    let at = t.range(i);
    let message = "This assignment is better written with `inherit`".to_owned();
    Ok(Some(Lint::ManualInheritFrom.fix_report(at, message, at, Some(fix))))
}

/// The ranges of what this rule reports lie within the text.
pub proof fn lemma_within(t: TreeModel, i: int)
    requires
        crate::syntax::ranges_in_text(t),
        0 <= i < t.elements.len(),
    ensures
        match spec_report(t, i) {
            Ok(Some(r)) => crate::lints::report_within(r, t.text.len() as int),
            _ => true,
        },
{
    broadcast use crate::syntax::lemma_nth_child_bound, crate::syntax::lemma_children_in_bound,
        crate::syntax::lemma_children_of_bound;
}

/// The ranges of what this rule reports lie within the text.
pub proof fn lemma_within_from(t: TreeModel, i: int)
    requires
        crate::syntax::ranges_in_text(t),
        0 <= i < t.elements.len(),
    ensures
        match spec_report_from(t, i) {
            Ok(Some(r)) => crate::lints::report_within(r, t.text.len() as int),
            _ => true,
        },
{
    broadcast use crate::syntax::lemma_nth_child_bound, crate::syntax::lemma_children_in_bound,
        crate::syntax::lemma_children_of_bound;
}

} // verus!
