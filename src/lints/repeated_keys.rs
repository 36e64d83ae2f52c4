//! `a.b = 1; a.c = 2; a.d = 3;`: a key repeated in one attribute set, better
//! written once as a nested set.
use vstd::prelude::*;
use vstd::string::StringSliceAdditionalSpecFns;
use crate::lints::{lint_code, lint_note, outcome_view, fires, Lint};
use crate::lints::let_in::texts;
use crate::report::{InternalError, append_bytes, lossy_text, text_from_bytes, DiagnosticModel, Report, ReportModel};
use crate::syntax::{
    TreeModel,
    children_in, nth_child, text_of, wf_tree, KindClass, SyntaxTree, TextRange, NODE_ATTRPATH,
    NODE_ATTRPATH_VALUE, NODE_ATTR_SET, NODE_IDENT, TOKEN_REC,
};

verus! {

/// The texts `xs`, joined by dots.
pub open spec fn dotted(xs: Seq<Seq<u8>>) -> Seq<u8>
    decreases xs.len(),
{
    if xs.len() == 0 {
        Seq::empty()
    } else if xs.len() == 1 {
        xs[0]
    } else {
        dotted(xs.drop_last()) + ".".spec_bytes() + xs.last()
    }
}

/// The decimal digits of `n`.
pub open spec fn decimal(n: nat) -> Seq<u8>
    decreases n,
{
    if n < 10 {
        seq![(48 + n) as u8]
    } else {
        decimal(n / 10) + seq![(48 + n % 10) as u8]
    }
}

/// Where binding `kv` assigns under the key `name`: the range of its path, and
/// the rest of the path after `name`, joined by dots.
pub open spec fn occurrence(t: TreeModel, kv: int, name: Seq<u8>) -> Option<(TextRange, Seq<u8>)> {
    let els = t.elements;
    if els[kv].kind != NODE_ATTRPATH_VALUE {
        None
    } else {
        match nth_child(els, kv, KindClass::Exactly(NODE_ATTRPATH), 0) {
            Some(key) => {
                let comps = children_in(els, key as int, KindClass::Attr);
                if comps.len() == 0 || els[comps[0] as int].kind != NODE_IDENT || text_of(t, comps[0] as int) != name {
                    None
                } else {
                    Some((els[key as int].range, dotted(texts(t, comps.skip(1)))))
                }
            },
            None => None,
        }
    }
}

/// The occurrences of key `name` among the bindings `cs`, in order.
pub open spec fn occurrences(t: TreeModel, cs: Seq<usize>, name: Seq<u8>) -> Seq<(TextRange, Seq<u8>)>
    decreases cs.len(),
{
    if cs.len() == 0 {
        Seq::empty()
    } else {
        let rest = occurrences(t, cs.drop_last(), name);
        match occurrence(t, cs.last() as int, name) {
            Some(o) => rest.push(o),
            None => rest,
        }
    }
}

proof fn lemma_occurrences_within(t: TreeModel, cs: Seq<usize>, name: Seq<u8>)
    requires
        crate::syntax::ranges_in_text(t),
        forall|k: int| 0 <= k < cs.len() ==> #[trigger] cs[k] < t.elements.len(),
    ensures
        forall|k: int| 0 <= k < occurrences(t, cs, name).len() ==> crate::lints::range_within(
            (#[trigger] occurrences(t, cs, name)[k]).0,
            t.text.len() as int,
        ),
    decreases cs.len(),
{
    broadcast use crate::syntax::lemma_nth_child_bound;
    if cs.len() > 0 {
        assert forall|k: int| 0 <= k < cs.drop_last().len() implies #[trigger] cs.drop_last()[k] < t.elements.len() by {
            assert(cs.drop_last()[k] == cs[k]);
        }
        lemma_occurrences_within(t, cs.drop_last(), name);
        assert(cs[cs.len() - 1] < t.elements.len());
        let o = occurrences(t, cs, name);
        let rest = occurrences(t, cs.drop_last(), name);
        assert forall|k: int| 0 <= k < o.len() implies crate::lints::range_within((#[trigger] o[k]).0, t.text.len() as int) by {
            if k < rest.len() {
                assert(o[k] == rest[k]);
            }
        }
    }
}

/// The head of the last message: how many further occurrences it leaves out.
pub open spec fn omitted(n: nat) -> Seq<u8> {
    if n == 0 {
        "... and here.".spec_bytes()
    } else if n == 1 {
        "... and here (`1` occurrence omitted).".spec_bytes()
    } else {
        "... and here (`".spec_bytes() + decimal(n) + "` occurrences omitted).".spec_bytes()
    }
}

/// On the first of three or more bindings, in one non-recursive attribute set,
/// whose paths have two or more parts and start with the same identifier: the
/// first three are reported, with a nested set suggested in words.
pub open spec fn spec_report(t: TreeModel, i: int) -> Result<Option<ReportModel>, InternalError> {
    let els = t.elements;
    match (nth_child(els, i, KindClass::Exactly(NODE_ATTRPATH), 0), els[i].parent) {
        (Some(path), Some(p)) => {
            let comps = children_in(els, path as int, KindClass::Attr);
            if els[i].kind != NODE_ATTRPATH_VALUE || comps.len() < 2 || els[comps[0] as int].kind != NODE_IDENT
                || els[p as int].kind != NODE_ATTR_SET || nth_child(els, p as int, KindClass::Exactly(TOKEN_REC), 0) is Some {
                Ok(None)
            } else {
                let name = text_of(t, comps[0] as int);
                let occ = occurrences(t, children_in(els, p as int, KindClass::Entry), name);
                if occ.len() < 3 || occ[0].0 != els[path as int].range {
                    Ok(None)
                } else {
                    fires(
                        ReportModel {
                            note: lint_note(Lint::RepeatedKeys),
                            code: lint_code(Lint::RepeatedKeys),
                            diagnostics: seq![
                                DiagnosticModel {
                                    at: occ[0].0,
                                    message: lossy_text(
                                        "The key `".spec_bytes() + name + "` is first assigned here ...".spec_bytes(),
                                    ),
                                    suggestion: None,
                                },
                                DiagnosticModel { at: occ[1].0, message: "... repeated here ..."@, suggestion: None },
                                DiagnosticModel {
                                    at: occ[2].0,
                                    message: lossy_text(
                                        omitted((occ.len() - 3) as nat) + " Try `".spec_bytes() + name
                                            + " = { ".spec_bytes() + occ[0].1 + "=...; ".spec_bytes() + occ[1].1
                                            + "=...; ".spec_bytes() + occ[2].1 + "=...; }` instead.".spec_bytes(),
                                    ),
                                    suggestion: None,
                                },
                            ],
                        },
                    )
                }
            }
        },
        _ => Ok(None),
    }
}

/// The decimal digits of `n`.
pub fn decimal_bytes(n: usize) -> (r: Vec<u8>)
    ensures
        r@ == decimal(n as nat),
    decreases n,
{
    if n < 10 {
        let r = vec![(48 + n) as u8];
        assert(r@ =~= decimal(n as nat));
        r
    } else {
        let mut r = decimal_bytes(n / 10);
        r.push((48 + n % 10) as u8);
        r
    }
}

fn dotted_rest(t: &SyntaxTree, comps: &Vec<usize>) -> (r: Vec<u8>)
    requires
        comps@.len() >= 1,
        forall|y: int| 0 <= y < comps@.len() ==> #[trigger] comps@[y] < t.elements@.len(),
    ensures
        r@ == dotted(texts(t@, comps@.skip(1))),
{
    let mut out: Vec<u8> = Vec::new();
    if comps.len() < 2 {
        assert(comps@.skip(1) =~= Seq::<usize>::empty());
        assert(texts(t@, comps@.skip(1)) =~= Seq::<Seq<u8>>::empty());
        return out;
    }
    let mut k: usize = 1;
    while k < comps.len()
        invariant
            1 <= k <= comps.len(),
            forall|y: int| 0 <= y < comps@.len() ==> #[trigger] comps@[y] < t.elements@.len(),
            out@ == dotted(texts(t@, comps@.subrange(1, k as int))),
        decreases comps.len() - k,
    {
        let ghost prev = texts(t@, comps@.subrange(1, k as int));
        let ghost next = texts(t@, comps@.subrange(1, k + 1));
        assert(next.drop_last() =~= prev);
        assert(next.last() == text_of(t@, comps@[k as int] as int));
        if k > 1 {
            append_bytes(&mut out, ".".as_bytes());
        } else {
            assert(out@ =~= Seq::<u8>::empty());
        }
        append_bytes(&mut out, t.text(comps[k]).as_slice());
        assert(out@ =~= dotted(next));
        k = k + 1;
    }
    assert(comps@.subrange(1, comps.len() as int) =~= comps@.skip(1));
    out
}

fn occurrence_at(t: &SyntaxTree, kv: usize, name: &Vec<u8>) -> (r: Option<(TextRange, Vec<u8>)>)
    requires
        wf_tree(t),
        kv < t.elements@.len(),
    ensures
        match occurrence(t@, kv as int, name@) {
            Some(o) => r matches Some(x) && x.0 == o.0 && x.1@ == o.1,
            None => r is None,
        },
{
    if t.kind(kv) != NODE_ATTRPATH_VALUE {
        return None;
    }
    let key = match t.nth_child(kv, KindClass::Exactly(NODE_ATTRPATH), 0) {
        Some(x) => x,
        None => return None,
    };
    let comps = t.children_in(key, KindClass::Attr);
    if comps.len() == 0 || t.kind(comps[0]) != NODE_IDENT || !crate::syntax::bytes_eq(t.text(comps[0]).as_slice(), name.as_slice()) {
        return None;
    }
    Some((t.range(key), dotted_rest(t, &comps)))
}

pub fn validate(t: &SyntaxTree, i: usize) -> (r: Result<Option<Report>, InternalError>)
    requires
        wf_tree(t),
        i < t.elements@.len(),
    ensures
        outcome_view(r) == spec_report(t@, i as int),
{
    let path = match t.nth_child(i, KindClass::Exactly(NODE_ATTRPATH), 0) {
        Some(x) => x,
        None => return Ok(None),
    };
    let p = match t.parent(i) {
        Some(p) => p,
        None => return Ok(None),
    };
    assert(i < t.elements@[i as int].subtree_end);
    let comps = t.children_in(path, KindClass::Attr);
    if t.kind(i) != NODE_ATTRPATH_VALUE || comps.len() < 2 || t.kind(comps[0]) != NODE_IDENT || t.kind(p) != NODE_ATTR_SET
        || t.nth_child(p, KindClass::Exactly(TOKEN_REC), 0).is_some() {
        return Ok(None);
    }
    let name = t.text(comps[0]);
    let entries = t.children_in(p, KindClass::Entry);
    let mut ranges: Vec<TextRange> = Vec::new();
    let mut rests: Vec<Vec<u8>> = Vec::new();
    let ghost cs = entries@;
    let mut k: usize = 0;
    while k < entries.len()
        invariant
            wf_tree(t),
            0 <= k <= entries.len(),
            cs == entries@,
            forall|y: int| 0 <= y < cs.len() ==> #[trigger] cs[y] < t.elements@.len(),
            ranges@.len() == rests@.len(),
            ranges@.len() == occurrences(t@, cs.take(k as int), name@).len(),
            forall|y: int| 0 <= y < ranges@.len() ==> #[trigger] ranges@[y] == occurrences(t@, cs.take(k as int), name@)[y].0
                && rests@[y]@ == occurrences(t@, cs.take(k as int), name@)[y].1,
        decreases entries.len() - k,
    {
        assert(cs.take(k + 1).drop_last() =~= cs.take(k as int));
        assert(cs.take(k + 1).last() == cs[k as int]);
        match occurrence_at(t, entries[k], &name) {
            Some((r, s)) => {
                ranges.push(r);
                rests.push(s);
            },
            None => {},
        }
        k = k + 1;
    }
    assert(cs.take(cs.len() as int) =~= cs);
    let ghost occ = occurrences(t@, cs, name@);
    if ranges.len() < 3 || ranges[0] != t.range(path) {
        return Ok(None);
    }
    let n = ranges.len() - 3;
    let mut m1: Vec<u8> = Vec::new();
    append_bytes(&mut m1, "The key `".as_bytes());
    append_bytes(&mut m1, name.as_slice());
    append_bytes(&mut m1, "` is first assigned here ...".as_bytes());
    let mut m3: Vec<u8> = Vec::new();
    if n == 0 {
        append_bytes(&mut m3, "... and here.".as_bytes());
    } else if n == 1 {
        append_bytes(&mut m3, "... and here (`1` occurrence omitted).".as_bytes());
    } else {
        append_bytes(&mut m3, "... and here (`".as_bytes());
        append_bytes(&mut m3, decimal_bytes(n).as_slice());
        append_bytes(&mut m3, "` occurrences omitted).".as_bytes());
    }
    assert(m3@ =~= omitted(n as nat));
    append_bytes(&mut m3, " Try `".as_bytes());
    append_bytes(&mut m3, name.as_slice());
    append_bytes(&mut m3, " = { ".as_bytes());
    append_bytes(&mut m3, rests[0].as_slice());
    append_bytes(&mut m3, "=...; ".as_bytes());
    append_bytes(&mut m3, rests[1].as_slice());
    append_bytes(&mut m3, "=...; ".as_bytes());
    append_bytes(&mut m3, rests[2].as_slice());
    append_bytes(&mut m3, "=...; }` instead.".as_bytes());
    let r = Lint::RepeatedKeys.report().diagnostic(ranges[0], text_from_bytes(m1.as_slice())).diagnostic(
        ranges[1],
        "... repeated here ...".to_owned(),
    ).diagnostic(ranges[2], text_from_bytes(m3.as_slice()));
    proof {
        assert(m1@ =~= "The key `".spec_bytes() + name@ + "` is first assigned here ...".spec_bytes());
        assert(m3@ =~= omitted((occ.len() - 3) as nat) + " Try `".spec_bytes() + name@ + " = { ".spec_bytes()
            + occ[0].1 + "=...; ".spec_bytes() + occ[1].1 + "=...; ".spec_bytes() + occ[2].1
            + "=...; }` instead.".spec_bytes());
        assert(r@.diagnostics =~= spec_report(t@, i as int)->Ok_0->Some_0.diagnostics);
    }
    Ok(Some(r))
}

/// The ranges of what this rule reports lie within the text.
pub proof fn lemma_within(t: TreeModel, i: int)
    requires
        crate::syntax::ranges_in_text(t),
        0 <= i < t.elements.len(),
    ensures
        match spec_report(t, i) {
            Ok(Some(r)) => crate::lints::report_within(r, t.text.len() as int),
            _ => true,
        },
{
    broadcast use crate::syntax::lemma_nth_child_bound, crate::syntax::lemma_children_in_bound,
        crate::syntax::lemma_children_of_bound;
    let els = t.elements;
    if let (Some(path), Some(p)) = (nth_child(els, i, KindClass::Exactly(NODE_ATTRPATH), 0), els[i].parent) {
        let comps = children_in(els, path as int, KindClass::Attr);
        if comps.len() >= 2 {
            let name = text_of(t, comps[0] as int);
            let cs = children_in(els, p as int, KindClass::Entry);
            assert forall|k: int| 0 <= k < cs.len() implies #[trigger] cs[k] < els.len() by {
                crate::syntax::lemma_children_in_bound(els, p as int, KindClass::Entry, k);
            }
            lemma_occurrences_within(t, cs, name);
        }
    }
}

} // verus!
