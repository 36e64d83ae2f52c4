//! Patterns in function arguments: `{ ... }:` that binds nothing, and
//! `{ ... } @ x:` that is just `x`.
use vstd::prelude::*;
use vstd::string::StringSliceAdditionalSpecFns;
use crate::lints::{fix_report, outcome_view, fires, Lint};
use crate::make::{ident, synthesized};
use crate::report::{InternalError, append_bytes, lossy_text, text_from_bytes, Report, ReportModel};
use crate::syntax::{
    TreeModel,
    children_in, nth_child, text_of, wf_tree, KindClass, SyntaxTree, NODE_ATTRPATH,
    NODE_ATTRPATH_VALUE, NODE_ATTR_SET, NODE_IDENT, NODE_LAMBDA, NODE_PATTERN, NODE_PAT_BIND,
    NODE_PAT_ENTRY, TOKEN_ELLIPSIS,
};

verus! {

/// One of the bindings `cs` is `imports = ...`.
pub open spec fn has_imports(t: TreeModel, cs: Seq<usize>) -> bool
    decreases cs.len(),
{
    if cs.len() == 0 {
        false
    } else {
        let x = cs.last();
        let here = match nth_child(t.elements, x as int, KindClass::Exactly(NODE_ATTRPATH), 0) {
            Some(p) => text_of(t, p as int) == "imports".spec_bytes(),
            None => false,
        };
        here || has_imports(t, cs.drop_last())
    }
}

/// Element `x` is an attribute set that binds `imports`: a module.
pub open spec fn is_module(t: TreeModel, x: int) -> bool {
    t.elements[x].kind == NODE_ATTR_SET && has_imports(
        t,
        children_in(t.elements, x, KindClass::Exactly(NODE_ATTRPATH_VALUE)),
    )
}

/// On a lambda whose parameter is a pattern with no entries and no binding, and
/// whose body is not a module: the pattern is replaced by `_`.
pub open spec fn spec_report_empty(t: TreeModel, i: int) -> Result<Option<ReportModel>, InternalError> {
    let els = t.elements;
    match (nth_child(els, i, KindClass::Param, 0), nth_child(els, i, KindClass::Expr, 0)) {
        (Some(pat), Some(body)) => {
            if els[i].kind != NODE_LAMBDA || els[pat as int].kind != NODE_PATTERN
                || children_in(els, pat as int, KindClass::Exactly(NODE_PAT_ENTRY)).len() != 0
                || nth_child(els, pat as int, KindClass::Exactly(NODE_PAT_BIND), 0) is Some
                || is_module(t, body as int) {
                Ok(None)
            } else {
                match synthesized("_".spec_bytes(), NODE_IDENT) {
                    Some(fix) => fires(
                        fix_report(
                            Lint::EmptyPattern,
                            els[pat as int].range,
                            "This pattern is empty, use `_` instead"@,
                            els[pat as int].range,
                            Some(fix),
                        ),
                    ),
                    None => Err(InternalError::Synthesis),
                }
            }
        },
        _ => Ok(None),
    }
}

/// On a pattern with no entries but `...`, bound to a name: it is replaced by the name.
pub open spec fn spec_report_bind(t: TreeModel, i: int) -> Result<Option<ReportModel>, InternalError> {
    let els = t.elements;
    if els[i].kind != NODE_PATTERN || children_in(els, i, KindClass::Exactly(NODE_PAT_ENTRY)).len() != 0
        || nth_child(els, i, KindClass::Exactly(TOKEN_ELLIPSIS), 0) is None {
        Ok(None)
    } else {
        match nth_child(els, i, KindClass::Exactly(NODE_PAT_BIND), 0) {
            Some(bind) => match nth_child(els, bind as int, KindClass::Exactly(NODE_IDENT), 0) {
                Some(name) => fires(
                    fix_report(
                        Lint::RedundantPatternBind,
                        els[i].range,
                        lossy_text(
                            "This pattern bind is redundant, use `".spec_bytes() + text_of(t, name as int)
                                + "` instead".spec_bytes(),
                        ),
                        els[i].range,
                        Some(text_of(t, name as int)),
                    ),
                ),
                None => Ok(None),
            },
            None => Ok(None),
        }
    }
}

fn is_module_at(t: &SyntaxTree, x: usize) -> (r: bool)
    requires
        wf_tree(t),
        x < t.elements@.len(),
    ensures
        r == is_module(t@, x as int),
{
    if t.kind(x) != NODE_ATTR_SET {
        return false;
    }
    let cs = t.children_in(x, KindClass::Exactly(NODE_ATTRPATH_VALUE));
    let mut k: usize = 0;
    while k < cs.len()
        invariant
            wf_tree(t),
            0 <= k <= cs.len(),
            x < t.elements@.len(),
            t.elements@[x as int].kind == NODE_ATTR_SET,
            cs@ == children_in(t.elements@, x as int, KindClass::Exactly(NODE_ATTRPATH_VALUE)),
            forall|y: int| 0 <= y < cs@.len() ==> #[trigger] cs@[y] < t.elements@.len(),
            !has_imports(t@, cs@.take(k as int)),
        decreases cs.len() - k,
    {
        assert(cs@.take(k + 1).drop_last() =~= cs@.take(k as int));
        let found = match t.nth_child(cs[k], KindClass::Exactly(NODE_ATTRPATH), 0) {
            Some(p) => t.text_is(p, "imports"),
            None => false,
        };
        if found {
            proof {
                assert(cs@.take(k + 1).last() == cs@[k as int]);
                assert(has_imports(t@, cs@.take(k + 1)));
                lemma_has_imports_prefix(t@, cs@, k as int + 1);
            }
            return true;
        }
        k = k + 1;
    }
    assert(cs@.take(cs.len() as int) =~= cs@);
    false
}

proof fn lemma_has_imports_prefix(t: TreeModel, cs: Seq<usize>, n: int)
    requires
        0 <= n <= cs.len(),
        has_imports(t, cs.take(n)),
    ensures
        has_imports(t, cs),
    decreases cs.len() - n,
{
    if n < cs.len() {
        assert(cs.take(n + 1).drop_last() =~= cs.take(n));
        lemma_has_imports_prefix(t, cs, n + 1);
    } else {
        assert(cs.take(n) =~= cs);
    }
}

pub fn validate_empty(t: &SyntaxTree, i: usize) -> (r: Result<Option<Report>, InternalError>)
    requires
        wf_tree(t),
        i < t.elements@.len(),
    ensures
        outcome_view(r) == spec_report_empty(t@, i as int),
{
    let pat = match t.nth_child(i, KindClass::Param, 0) {
        Some(x) => x,
        None => return Ok(None),
    };
    let body = match t.nth_child(i, KindClass::Expr, 0) {
        Some(x) => x,
        None => return Ok(None),
    };
    if t.kind(i) != NODE_LAMBDA || t.kind(pat) != NODE_PATTERN
        || t.count_children(pat, KindClass::Exactly(NODE_PAT_ENTRY)) != 0
        || t.nth_child(pat, KindClass::Exactly(NODE_PAT_BIND), 0).is_some() || is_module_at(t, body) {
        return Ok(None);
    }
    let fix = match ident("_") {
        Some(f) => f,
        None => return Err(InternalError::Synthesis),
    };
    let at = t.range(pat);
    let message = "This pattern is empty, use `_` instead".to_owned();
    Ok(Some(Lint::EmptyPattern.fix_report(at, message, at, Some(fix))))
}

pub fn validate_bind(t: &SyntaxTree, i: usize) -> (r: Result<Option<Report>, InternalError>)
    requires
        wf_tree(t),
        i < t.elements@.len(),
    ensures
        outcome_view(r) == spec_report_bind(t@, i as int),
{
    if t.kind(i) != NODE_PATTERN || t.count_children(i, KindClass::Exactly(NODE_PAT_ENTRY)) != 0
        || t.nth_child(i, KindClass::Exactly(TOKEN_ELLIPSIS), 0).is_none() {
        return Ok(None);
    }
    let bind = match t.nth_child(i, KindClass::Exactly(NODE_PAT_BIND), 0) {
        Some(x) => x,
        None => return Ok(None),
    };
    let name = match t.nth_child(bind, KindClass::Exactly(NODE_IDENT), 0) {
        Some(x) => x,
        None => return Ok(None),
    };
    let mut m: Vec<u8> = Vec::new();
    append_bytes(&mut m, "This pattern bind is redundant, use `".as_bytes());
    append_bytes(&mut m, t.text(name).as_slice());
    append_bytes(&mut m, "` instead".as_bytes());
    let at = t.range(i);
    Ok(Some(Lint::RedundantPatternBind.fix_report(at, text_from_bytes(m.as_slice()), at, Some(t.text(name)))))
}

/// The ranges of what this rule reports lie within the text.
pub proof fn lemma_within_empty(t: TreeModel, i: int)
    requires
        crate::syntax::ranges_in_text(t),
        0 <= i < t.elements.len(),
    ensures
        match spec_report_empty(t, i) {
            Ok(Some(r)) => crate::lints::report_within(r, t.text.len() as int),
            _ => true,
        },
{
    broadcast use crate::syntax::lemma_nth_child_bound, crate::syntax::lemma_children_in_bound,
        crate::syntax::lemma_children_of_bound;
}

/// The ranges of what this rule reports lie within the text.
pub proof fn lemma_within_bind(t: TreeModel, i: int)
    requires
        crate::syntax::ranges_in_text(t),
        0 <= i < t.elements.len(),
    ensures
        match spec_report_bind(t, i) {
            Ok(Some(r)) => crate::lints::report_within(r, t.text.len() as int),
            _ => true,
        },
{
    broadcast use crate::syntax::lemma_nth_child_bound, crate::syntax::lemma_children_in_bound,
        crate::syntax::lemma_children_of_bound;
}

} // verus!
