//! Let-in forms: a let-in whose body is another let-in, and the undocumented
//! `let { ...; body = ...; }`.
use vstd::prelude::*;
use vstd::string::StringSliceAdditionalSpecFns;
use crate::lints::{lint_code, lint_note, outcome_view, fires, fix_report, Lint};
use crate::make::{attrset, indented_lines, parenthesize, select, ident, synthesized};
use crate::report::{InternalError, DiagnosticModel, Report, ReportModel, Suggestion, SuggestionModel};
use crate::syntax::{
    TreeModel, Element,
    children_in, children_of, nth_child, text_of, wf_tree, KindClass, SyntaxTree, TextRange,
    NODE_ATTRPATH, NODE_ATTRPATH_VALUE, NODE_ATTR_SET, NODE_IDENT, NODE_INHERIT, NODE_LEGACY_LET,
    NODE_LET_IN, NODE_PAREN, NODE_SELECT, TOKEN_IN, TOKEN_LET,
};

verus! {

/// Scanning `cs` up to `x`: the last `in` token seen, `x` included.
pub open spec fn in_token_upto(els: Seq<Element>, cs: Seq<usize>, x: usize, seen: Option<usize>) -> Option<usize>
    decreases cs.len(),
{
    if cs.len() == 0 {
        None
    } else {
        let y = cs[0];
        let now = if els[y as int].kind == TOKEN_IN {
            Some(y)
        } else {
            seen
        };
        if y == x {
            now
        } else {
            in_token_upto(els, cs.drop_first(), x, now)
        }
    }
}

/// The first element of kind `k` at an index in `j..stop`.
pub open spec fn first_kind_between(els: Seq<Element>, k: u16, j: int, stop: int) -> Option<usize>
    decreases stop - j,
{
    if j < 0 || j >= stop || j >= els.len() {
        None
    } else if els[j].kind == k {
        Some(j as usize)
    } else {
        first_kind_between(els, k, j + 1, stop)
    }
}

/// On a let-in whose body is a let-in: both are reported, and the inner `in ...
/// let` is deleted, which merges the bindings.
pub open spec fn spec_report_collapsible(t: TreeModel, i: int) -> Result<Option<ReportModel>, InternalError> {
    let els = t.elements;
    match nth_child(els, i, KindClass::Expr, 0) {
        Some(body) => if els[i].kind != NODE_LET_IN || els[body as int].kind != NODE_LET_IN {
            Ok(None)
        } else {
            match (
                in_token_upto(els, children_of(els, i), body, None),
                first_kind_between(els, TOKEN_LET, body as int, els[body as int].subtree_end as int),
            ) {
                (Some(tin), Some(tlet)) => fires(
                    ReportModel {
                        note: lint_note(Lint::CollapsibleLetIn),
                        code: lint_code(Lint::CollapsibleLetIn),
                        diagnostics: seq![
                            DiagnosticModel {
                                at: els[i].range,
                                message: "This `let in` expression contains a nested `let in` expression"@,
                                suggestion: None,
                            },
                            DiagnosticModel {
                                at: els[body as int].range,
                                message: "This `let in` expression is nested"@,
                                suggestion: Some(
                                    SuggestionModel {
                                        at: TextRange {
                                            start: els[tin as int].range.start,
                                            end: els[tlet as int].range.end,
                                        },
                                        fix: None,
                                    },
                                ),
                            },
                        ],
                    },
                ),
                _ => Ok(None),
            }
        },
        None => Ok(None),
    }
}

proof fn lemma_in_token_bound(els: Seq<Element>, cs: Seq<usize>, x: usize, seen: Option<usize>)
    requires
        forall|k: int| 0 <= k < cs.len() ==> #[trigger] cs[k] < els.len(),
        match seen {
            Some(y) => y < els.len(),
            None => true,
        },
    ensures
        match in_token_upto(els, cs, x, seen) {
            Some(y) => y < els.len(),
            None => true,
        },
    decreases cs.len(),
{
    if cs.len() > 0 {
        assert(cs[0] < els.len());
        assert forall|k: int| 0 <= k < cs.drop_first().len() implies #[trigger] cs.drop_first()[k] < els.len() by {
            assert(cs.drop_first()[k] == cs[k + 1]);
        }
        let now = if els[cs[0] as int].kind == TOKEN_IN {
            Some(cs[0])
        } else {
            seen
        };
        lemma_in_token_bound(els, cs.drop_first(), x, now);
    }
}

proof fn lemma_first_kind_bound(els: Seq<Element>, k: u16, j: int, stop: int)
    ensures
        match first_kind_between(els, k, j, stop) {
            Some(y) => y < els.len(),
            None => true,
        },
    decreases stop - j,
{
    if !(j < 0 || j >= stop || j >= els.len()) && els[j].kind != k {
        lemma_first_kind_bound(els, k, j + 1, stop);
    }
}

/// The texts of the elements `xs`.
pub open spec fn texts(t: TreeModel, xs: Seq<usize>) -> Seq<Seq<u8>> {
    xs.map_values(|x: usize| text_of(t, x as int))
}

/// Among the bindings `cs`, one is `body = ...` (its path starting with the identifier `body`).
pub open spec fn binds_body(t: TreeModel, cs: Seq<usize>) -> bool
    decreases cs.len(),
{
    if cs.len() == 0 {
        false
    } else {
        let x = cs.last();
        let here = match nth_child(t.elements, x as int, KindClass::Exactly(NODE_ATTRPATH), 0) {
            Some(p) => match nth_child(t.elements, p as int, KindClass::Attr, 0) {
                Some(a) => t.elements[a as int].kind == NODE_IDENT && text_of(t, a as int) == "body".spec_bytes(),
                None => false,
            },
            None => false,
        };
        here || binds_body(t, cs.drop_last())
    }
}

/// On `let { ... }` that binds `body`: replaced by `(rec { ... }).body`.
pub open spec fn spec_report_legacy(t: TreeModel, i: int) -> Result<Option<ReportModel>, InternalError> {
    let els = t.elements;
    let inherits = children_in(els, i, KindClass::Exactly(NODE_INHERIT));
    let entries = children_in(els, i, KindClass::Exactly(NODE_ATTRPATH_VALUE));
    if els[i].kind != NODE_LEGACY_LET || !binds_body(t, entries) {
        Ok(None)
    } else {
        match synthesized(
            "rec {\n".spec_bytes() + indented_lines(texts(t, inherits)) + indented_lines(texts(t, entries))
                + "}".spec_bytes(),
            NODE_ATTR_SET,
        ) {
            Some(set) => match synthesized("(".spec_bytes() + set + ")".spec_bytes(), NODE_PAREN) {
                Some(p) => match synthesized("body".spec_bytes(), NODE_IDENT) {
                    Some(b) => match synthesized(p + ".".spec_bytes() + b, NODE_SELECT) {
                        Some(fix) => fires(
                            fix_report(
                                Lint::LegacyLetSyntax,
                                els[i].range,
                                "Prefer `rec` over undocumented `let` syntax"@,
                                els[i].range,
                                Some(fix),
                            ),
                        ),
                        None => Err(InternalError::Synthesis),
                    },
                    None => Err(InternalError::Synthesis),
                },
                None => Err(InternalError::Synthesis),
            },
            None => Err(InternalError::Synthesis),
        }
    }
}

fn in_token_at(t: &SyntaxTree, i: usize, x: usize) -> (r: Option<usize>)
    requires
        wf_tree(t),
        i < t.elements@.len(),
    ensures
        r == in_token_upto(t.elements@, children_of(t.elements@, i as int), x, None),
        r matches Some(y) ==> y < t.elements@.len(),
{
    let cs = t.children(i);
    let ghost els = t.elements@;
    let mut seen: Option<usize> = None;
    let mut k: usize = 0;
    assert(cs@.skip(0) =~= cs@);
    while k < cs.len()
        invariant
            0 <= k <= cs.len(),
            els == t.elements@,
            cs@ == children_of(els, i as int),
            forall|y: int| 0 <= y < cs@.len() ==> #[trigger] cs@[y] < els.len(),
            seen matches Some(y) ==> y < els.len(),
            in_token_upto(els, cs@, x, None) == in_token_upto(els, cs@.skip(k as int), x, seen),
        decreases cs.len() - k,
    {
        assert(cs@.skip(k as int).drop_first() =~= cs@.skip(k + 1));
        assert(cs@.skip(k as int)[0] == cs@[k as int]);
        let y = cs[k];
        let ghost before = seen;
        if t.kind(y) == TOKEN_IN {
            seen = Some(y);
        }
        assert(in_token_upto(els, cs@.skip(k as int), x, before) == if y == x {
            seen
        } else {
            in_token_upto(els, cs@.skip(k + 1), x, seen)
        });
        if y == x {
            return seen;
        }
        k = k + 1;
    }
    None
}

fn first_kind_in_subtree(t: &SyntaxTree, x: usize, k: u16) -> (r: Option<usize>)
    requires
        wf_tree(t),
        x < t.elements@.len(),
    ensures
        r == first_kind_between(t.elements@, k, x as int, t.elements@[x as int].subtree_end as int),
        r matches Some(y) ==> y < t.elements@.len(),
{
    let stop = t.elements[x].subtree_end;
    let mut j = x;
    while j < stop && j < t.len()
        invariant
            x <= j,
            stop == t.elements@[x as int].subtree_end,
            first_kind_between(t.elements@, k, x as int, stop as int) == first_kind_between(t.elements@, k, j as int, stop as int),
        decreases stop - j,
    {
        if t.kind(j) == k {
            return Some(j);
        }
        j = j + 1;
    }
    None
}

pub fn validate_collapsible(t: &SyntaxTree, i: usize) -> (r: Result<Option<Report>, InternalError>)
    requires
        wf_tree(t),
        i < t.elements@.len(),
    ensures
        outcome_view(r) == spec_report_collapsible(t@, i as int),
{
    let body = match t.nth_child(i, KindClass::Expr, 0) {
        Some(x) => x,
        None => return Ok(None),
    };
    if t.kind(i) != NODE_LET_IN || t.kind(body) != NODE_LET_IN {
        return Ok(None);
    }
    let tin = match in_token_at(t, i, body) {
        Some(x) => x,
        None => return Ok(None),
    };
    let tlet = match first_kind_in_subtree(t, body, TOKEN_LET) {
        Some(x) => x,
        None => return Ok(None),
    };
    let at = TextRange { start: t.range(tin).start, end: t.range(tlet).end };
    let r = Lint::CollapsibleLetIn.report().diagnostic(
        t.range(i),
        "This `let in` expression contains a nested `let in` expression".to_owned(),
    ).suggest(t.range(body), "This `let in` expression is nested".to_owned(), Suggestion::with_empty(at));
    assert(r@.diagnostics =~= spec_report_collapsible(t@, i as int)->Ok_0->Some_0.diagnostics);
    Ok(Some(r))
}

fn binds_body_at(t: &SyntaxTree, cs: &Vec<usize>) -> (r: bool)
    requires
        wf_tree(t),
        forall|y: int| 0 <= y < cs@.len() ==> #[trigger] cs@[y] < t.elements@.len(),
    ensures
        r == binds_body(t@, cs@),
{
    let mut k: usize = 0;
    while k < cs.len()
        invariant
            wf_tree(t),
            0 <= k <= cs.len(),
            forall|y: int| 0 <= y < cs@.len() ==> #[trigger] cs@[y] < t.elements@.len(),
            !binds_body(t@, cs@.take(k as int)),
        decreases cs.len() - k,
    {
        assert(cs@.take(k + 1).drop_last() =~= cs@.take(k as int));
        let here = match t.nth_child(cs[k], KindClass::Exactly(NODE_ATTRPATH), 0) {
            Some(p) => match t.nth_child(p, KindClass::Attr, 0) {
                Some(a) => t.kind(a) == NODE_IDENT && t.text_is(a, "body"),
                None => false,
            },
            None => false,
        };
        if here {
            proof {
                assert(cs@.take(k + 1).last() == cs@[k as int]);
                assert(binds_body(t@, cs@.take(k + 1)));
                lemma_binds_body_prefix(t@, cs@, k as int + 1);
            }
            return true;
        }
        k = k + 1;
    }
    assert(cs@.take(cs.len() as int) =~= cs@);
    false
}

proof fn lemma_binds_body_prefix(t: TreeModel, cs: Seq<usize>, n: int)
    requires
        0 <= n <= cs.len(),
        binds_body(t, cs.take(n)),
    ensures
        binds_body(t, cs),
    decreases cs.len() - n,
{
    if n < cs.len() {
        assert(cs.take(n + 1).drop_last() =~= cs.take(n));
        lemma_binds_body_prefix(t, cs, n + 1);
    } else {
        assert(cs.take(n) =~= cs);
    }
}

fn texts_of(t: &SyntaxTree, xs: &Vec<usize>) -> (r: Vec<Vec<u8>>)
    requires
        forall|y: int| 0 <= y < xs@.len() ==> #[trigger] xs@[y] < t.elements@.len(),
    ensures
        r.deep_view() == texts(t@, xs@),
{
    let mut out: Vec<Vec<u8>> = Vec::new();
    let mut k: usize = 0;
    while k < xs.len()
        invariant
            0 <= k <= xs.len(),
            forall|y: int| 0 <= y < xs@.len() ==> #[trigger] xs@[y] < t.elements@.len(),
            out.deep_view() =~= texts(t@, xs@.take(k as int)),
        decreases xs.len() - k,
    {
        let ghost prev = out.deep_view();
        let x = t.text(xs[k]);
        let ghost xv = x.deep_view();
        assert(xv =~= x@);
        out.push(x);
        assert(out.deep_view() =~= prev.push(xv));
        assert(texts(t@, xs@.take(k + 1)) =~= texts(t@, xs@.take(k as int)).push(text_of(t@, xs@[k as int] as int)));
        k = k + 1;
    }
    assert(xs@.take(xs.len() as int) =~= xs@);
    out
}

pub fn validate_legacy(t: &SyntaxTree, i: usize) -> (r: Result<Option<Report>, InternalError>)
    requires
        wf_tree(t),
        i < t.elements@.len(),
    ensures
        outcome_view(r) == spec_report_legacy(t@, i as int),
{
    let inherits = t.children_in(i, KindClass::Exactly(NODE_INHERIT));
    let entries = t.children_in(i, KindClass::Exactly(NODE_ATTRPATH_VALUE));
    if t.kind(i) != NODE_LEGACY_LET || !binds_body_at(t, &entries) {
        return Ok(None);
    }
    let set = match attrset(&texts_of(t, &inherits), &texts_of(t, &entries), true) {
        Some(x) => x,
        None => return Err(InternalError::Synthesis),
    };
    let p = match parenthesize(set.as_slice()) {
        Some(x) => x,
        None => return Err(InternalError::Synthesis),
    };
    let b = match ident("body") {
        Some(x) => x,
        None => return Err(InternalError::Synthesis),
    };
    let fix = match select(p.as_slice(), b.as_slice()) {
        Some(x) => x,
        None => return Err(InternalError::Synthesis),
    };
    let at = t.range(i);
    let message = "Prefer `rec` over undocumented `let` syntax".to_owned();
    Ok(Some(Lint::LegacyLetSyntax.fix_report(at, message, at, Some(fix))))
}

/// The ranges of what this rule reports lie within the text.
pub proof fn lemma_within_legacy(t: TreeModel, i: int)
    requires
        crate::syntax::ranges_in_text(t),
        0 <= i < t.elements.len(),
    ensures
        match spec_report_legacy(t, i) {
            Ok(Some(r)) => crate::lints::report_within(r, t.text.len() as int),
            _ => true,
        },
{
    broadcast use crate::syntax::lemma_nth_child_bound, crate::syntax::lemma_children_in_bound,
        crate::syntax::lemma_children_of_bound;
}

/// The ranges of what this rule reports lie within the text.
pub proof fn lemma_within_collapsible(t: TreeModel, i: int)
    requires
        crate::syntax::ranges_in_text(t),
        0 <= i < t.elements.len(),
    ensures
        match spec_report_collapsible(t, i) {
            Ok(Some(r)) => crate::lints::report_within(r, t.text.len() as int),
            _ => true,
        },
{
    broadcast use crate::syntax::lemma_nth_child_bound, crate::syntax::lemma_children_in_bound,
        crate::syntax::lemma_children_of_bound;
    let els = t.elements;
    if let Some(body) = nth_child(els, i, KindClass::Expr, 0) {
        crate::syntax::lemma_siblings_in_bound(els, i);
        lemma_in_token_bound(els, children_of(els, i), body, None);
        lemma_first_kind_bound(els, TOKEN_LET, body as int, els[body as int].subtree_end as int);
    }
}

} // verus!
