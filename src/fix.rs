//! The fix engine: a single fix at a position, and fix-all, which repeats
//! rounds of non-overlapping edits until no rule has anything to fix.
use vstd::prelude::*;
use vstd::string::StringSliceAdditionalSpecFns;
use crate::lint::{dispatch, reports_view, views};
use crate::lints::{rule_report, Lint};
use crate::make::string_from_utf8;
use crate::registry::{LintMap, KIND_COUNT};
use vstd::utf8::{decode_utf8, encode_utf8, valid_utf8};
use crate::report::{append_bytes, first_suggestion, is_fixable, Fixed, InternalError, Report, ReportModel};
use crate::session::{SessionInfo, Version};
use crate::syntax::{parse_tree, parses, syntax_errors, tree_model, tree_of, wf_tree, SyntaxTree, TextRange, TreeModel};

verus! {

/// The reports of the rules `rs` on element `i` that carry a suggestion; an
/// internal error where a rule fails.
pub open spec fn node_fixables(rs: Seq<Lint>, t: TreeModel, i: int, v: Version) -> Result<Seq<ReportModel>, InternalError>
    decreases rs.len(),
{
    if rs.len() == 0 {
        Ok(Seq::empty())
    } else {
        match node_fixables(rs.drop_last(), t, i, v) {
            Err(e) => Err(e),
            Ok(s) => match rule_report(rs.last(), t, i, v) {
                Err(e) => Err(e),
                Ok(Some(r)) => if is_fixable(r) {
                    Ok(s.push(r))
                } else {
                    Ok(s)
                },
                Ok(None) => Ok(s),
            },
        }
    }
}

/// The reports that carry a suggestion on the first `n` elements, in preorder.
pub open spec fn walk_fixables(rules: Seq<Lint>, t: TreeModel, n: int, v: Version) -> Result<Seq<ReportModel>, InternalError>
    decreases n,
{
    if n <= 0 {
        Ok(Seq::empty())
    } else {
        match walk_fixables(rules, t, n - 1, v) {
            Err(e) => Err(e),
            Ok(s) => match node_fixables(dispatch(rules, t.elements[n - 1].kind), t, n - 1, v) {
                Err(e) => Err(e),
                Ok(x) => Ok(s + x),
            },
        }
    }
}

proof fn lemma_walk_fixables_err(rules: Seq<Lint>, t: TreeModel, m: int, n: int, v: Version)
    requires
        0 <= m <= n,
        walk_fixables(rules, t, m, v) is Err,
    ensures
        walk_fixables(rules, t, n, v) is Err,
    decreases n - m,
{
    if m < n {
        lemma_walk_fixables_err(rules, t, m, n - 1, v);
    }
}

proof fn lemma_node_fixables_err(rs: Seq<Lint>, t: TreeModel, i: int, v: Version, m: int)
    requires
        0 <= m <= rs.len(),
        node_fixables(rs.take(m), t, i, v) is Err,
    ensures
        node_fixables(rs, t, i, v) is Err,
    decreases rs.len() - m,
{
    if m < rs.len() {
        assert(rs.take(m + 1).drop_last() =~= rs.take(m));
        lemma_node_fixables_err(rs, t, i, v, m + 1);
    } else {
        assert(rs.take(m) =~= rs);
    }
}

/// The reports on `src` that can drive an edit, in traversal order.
pub open spec fn fix_candidates(rules: Seq<Lint>, src: Seq<char>, v: Version) -> Result<Seq<ReportModel>, InternalError> {
    walk_fixables(rules, tree_model(src), tree_of(src).len() as int, v)
}

/// The range that a report's edit replaces: that of its first suggestion.
pub open spec fn fix_range(r: ReportModel) -> TextRange {
    match first_suggestion(r.diagnostics) {
        Some(s) => s.at,
        None => TextRange { start: 0, end: 0 },
    }
}

/// The text that a report's edit puts in: empty for a deletion.
pub open spec fn fix_text(r: ReportModel) -> Seq<u8> {
    match first_suggestion(r.diagnostics) {
        Some(s) => match s.fix {
            Some(f) => f,
            None => Seq::empty(),
        },
        None => Seq::empty(),
    }
}

/// `text` with the bytes in `at` (cut to the text) replaced by `fix`.
pub open spec fn splice(text: Seq<u8>, at: TextRange, fix: Seq<u8>) -> Seq<u8> {
    let s = if at.start <= text.len() {
        at.start as int
    } else {
        text.len() as int
    };
    let e = if at.end < s {
        s
    } else if at.end <= text.len() {
        at.end as int
    } else {
        text.len() as int
    };
    text.subrange(0, s) + fix + text.subrange(e, text.len() as int)
}

pub open spec fn well_formed(r: TextRange) -> bool {
    r.start <= r.end
}

/// Two edits conflict when their ranges overlap; an empty range overlaps nothing.
pub open spec fn conflicts(a: TextRange, b: TextRange) -> bool {
    a.start < b.end && b.start < a.end
}

/// Edit `x` comes strictly before edit `y` in the scan order: by start, then by
/// end (the shorter first), then by index.
pub open spec fn scan_before(rs: Seq<TextRange>, x: int, y: int) -> bool {
    rs[x].start < rs[y].start || (rs[x].start == rs[y].start && (rs[x].end < rs[y].end || (rs[x].end
        == rs[y].end && x < y)))
}

/// `sel` picks edits of `rs` that are well-formed, in scan order, each ending
/// where or before the next starts; and it is maximal: every well-formed edit
/// left out overlaps one picked.
pub open spec fn selection_ok(rs: Seq<TextRange>, sel: Seq<usize>) -> bool {
    &&& forall|a: int| 0 <= a < sel.len() ==> #[trigger] sel[a] < rs.len() && well_formed(rs[sel[a] as int])
    &&& forall|a: int, b: int|
        0 <= a < b < sel.len() ==> rs[#[trigger] sel[a] as int].end <= rs[#[trigger] sel[b] as int].start
            && scan_before(rs, sel[a] as int, sel[b] as int)
    &&& forall|j: int|
        0 <= j < rs.len() && well_formed(#[trigger] rs[j]) ==> exists|a: int|
            0 <= a < sel.len() && (sel[a] == j || conflicts(rs[j], rs[sel[a] as int]))
}

/// `text` after the picked edits, applied from the last to the first.
pub open spec fn apply_back(text: Seq<u8>, reps: Seq<ReportModel>, sel: Seq<usize>) -> Seq<u8>
    decreases sel.len(),
{
    if sel.len() == 0 {
        text
    } else {
        let r = reps[sel.last() as int];
        apply_back(splice(text, fix_range(r), fix_text(r)), reps, sel.drop_last())
    }
}

pub open spec fn fix_ranges(reps: Seq<ReportModel>) -> Seq<TextRange> {
    reps.map_values(|r: ReportModel| fix_range(r))
}

/// Two applied edits never overlap: of any two picked, one ends before the
/// other starts.
pub proof fn law_selected_edits_disjoint(rs: Seq<TextRange>, sel: Seq<usize>, a: int, b: int)
    requires
        selection_ok(rs, sel),
        0 <= a < sel.len(),
        0 <= b < sel.len(),
        a != b,
    ensures
        rs[sel[a] as int].end <= rs[sel[b] as int].start || rs[sel[b] as int].end <= rs[sel[a] as int].start,
        !conflicts(rs[sel[a] as int], rs[sel[b] as int]),
{
    if a < b {
        assert(rs[sel[a] as int].end <= rs[sel[b] as int].start);
    } else {
        assert(rs[sel[b] as int].end <= rs[sel[a] as int].start);
    }
}

/// The reports on `t` that carry a suggestion, in traversal order.
pub fn collect_fixes(t: &SyntaxTree, lints: &LintMap, sess: &SessionInfo) -> (r: Result<Vec<Report>, InternalError>)
    requires
        wf_tree(t),
        lints.wf(),
    ensures
        reports_view(r) == walk_fixables(lints.rules@, t@, t.elements@.len() as int, sess.nix_version),
{
    let ghost v = sess.nix_version;
    let mut out: Vec<Report> = Vec::new();
    let mut i: usize = 0;
    assert(views(out@) =~= Seq::<ReportModel>::empty());
    while i < t.len()
        invariant
            wf_tree(t),
            lints.wf(),
            v == sess.nix_version,
            0 <= i <= t.elements@.len(),
            walk_fixables(lints.rules@, t@, i as int, v) == Ok::<Seq<ReportModel>, InternalError>(views(out@)),
        decreases t.elements@.len() - i,
    {
        let k = t.kind(i);
        let empty: Vec<Lint> = Vec::new();
        let rules = if k < KIND_COUNT {
            lints.get(k)
        } else {
            &empty
        };
        assert(rules@ == dispatch(lints.rules@, k));
        let ghost before = views(out@);
        let mut j: usize = 0;
        while j < rules.len()
            invariant
                wf_tree(t),
                v == sess.nix_version,
                i < t.elements@.len(),
                0 <= j <= rules.len(),
                rules@ == dispatch(lints.rules@, t.elements@[i as int].kind),
                walk_fixables(lints.rules@, t@, i as int, v) == Ok::<Seq<ReportModel>, InternalError>(before),
                node_fixables(rules@.take(j as int), t@, i as int, v) matches Ok(x) && views(out@) == before + x,
            decreases rules.len() - j,
        {
            assert(rules@.take(j + 1).drop_last() =~= rules@.take(j as int));
            assert(rules@.take(j + 1).last() == rules@[j as int]);
            let ghost prev = out@;
            match rules[j].validate(t, i, sess) {
                Ok(Some(rep)) => {
                    if rep.first_suggestion().is_some() {
                        out.push(rep);
                        assert(views(out@) =~= views(prev).push(out@.last()@));
                    } else {
                        assert(views(out@) =~= views(prev));
                    }
                },
                Ok(None) => {
                    assert(views(out@) =~= views(prev));
                },
                Err(e) => {
                    proof {
                        lemma_node_fixables_err(rules@, t@, i as int, v, j as int + 1);
                        assert(rules@.take(rules.len() as int) =~= rules@);
                        lemma_walk_fixables_err(lints.rules@, t@, i + 1, t.elements@.len() as int, v);
                    }
                    return Err(e);
                },
            }
            assert(node_fixables(rules@.take(j + 1), t@, i as int, v) matches Ok(x) && views(out@) =~= before + x);
            j = j + 1;
        }
        assert(rules@.take(rules.len() as int) =~= rules@);
        i = i + 1;
    }
    Ok(out)
}

/// The range and the text of a report's edit.
pub fn fix_parts(r: &Report) -> (out: (TextRange, Vec<u8>))
    ensures
        out.0 == fix_range(r@),
        out.1@ == fix_text(r@),
{
    let mut text: Vec<u8> = Vec::new();
    match r.first_suggestion() {
        Some(s) => {
            match &s.fix {
                Some(f) => {
                    append_bytes(&mut text, f.as_slice());
                    assert(text@ =~= f@);
                },
                None => {},
            }
            (s.at, text)
        },
        None => (TextRange { start: 0, end: 0 }, text),
    }
}

/// `text` with the bytes in `at` replaced by `fix` (see `splice`).
pub fn splice_bytes(text: &Vec<u8>, at: TextRange, fix: &Vec<u8>) -> (r: Vec<u8>)
    ensures
        r@ == splice(text@, at, fix@),
{
    let n = text.len();
    let s: usize = if (at.start as usize) <= n {
        at.start as usize
    } else {
        n
    };
    let e: usize = if (at.end as usize) < s {
        s
    } else if (at.end as usize) <= n {
        at.end as usize
    } else {
        n
    };
    let mut out: Vec<u8> = Vec::new();
    let mut i: usize = 0;
    while i < s
        invariant
            0 <= i <= s <= n == text.len(),
            out@ == text@.subrange(0, i as int),
        decreases s - i,
    {
        out.push(text[i]);
        i = i + 1;
    }
    append_bytes(&mut out, fix.as_slice());
    let ghost mid = out@;
    let mut i = e;
    while i < n
        invariant
            s <= e <= i <= n == text.len(),
            out@ == mid + text@.subrange(e as int, i as int),
        decreases n - i,
    {
        out.push(text[i]);
        assert(text@.subrange(e as int, i + 1) =~= text@.subrange(e as int, i as int).push(text@[i as int]));
        i = i + 1;
    }
    assert(out@ =~= splice(text@, at, fix@));
    out
}

/// Edit `j` can be picked after `last`: it is well-formed, comes after `last`
/// in the scan order, and starts where or after `last` ends.
pub open spec fn is_candidate(rs: Seq<TextRange>, j: int, last: Option<usize>) -> bool {
    well_formed(rs[j]) && match last {
        None => true,
        Some(l) => rs[j].start >= rs[l as int].end && scan_before(rs, l as int, j),
    }
}

/// Edit `j` comes before edit `b` in the scan: it starts earlier, or as early
/// and is shorter.
pub open spec fn precedes(rs: Seq<TextRange>, j: int, b: int) -> bool {
    rs[j].start < rs[b].start || (rs[j].start == rs[b].start && rs[j].end < rs[b].end)
}

/// Scanning the edits from index `j` on, with `best` the pick so far: the
/// candidate after `last` that comes first in the scan (the lowest index among
/// equal ones).
pub open spec fn best_from(rs: Seq<TextRange>, last: Option<usize>, j: int, best: Option<usize>) -> Option<usize>
    decreases rs.len() - j,
{
    if j < 0 || j >= rs.len() {
        best
    } else {
        let next = if is_candidate(rs, j, last) && match best {
            None => true,
            Some(b) => precedes(rs, j, b as int),
        } {
            Some(j as usize)
        } else {
            best
        };
        best_from(rs, last, j + 1, next)
    }
}

/// How far the scan has come, by start, by end and by index of the last pick.
pub open spec fn scan_start(rs: Seq<TextRange>, last: Option<usize>) -> int {
    match last {
        None => 0x1_0000_0002int,
        Some(l) => if l < rs.len() {
            0x1_0000_0001int - rs[l as int].start
        } else {
            0
        },
    }
}

pub open spec fn scan_end(rs: Seq<TextRange>, last: Option<usize>) -> int {
    match last {
        None => 0x1_0000_0002int,
        Some(l) => if l < rs.len() {
            0x1_0000_0001int - rs[l as int].end
        } else {
            0
        },
    }
}

pub open spec fn scan_index(rs: Seq<TextRange>, last: Option<usize>) -> int {
    match last {
        None => rs.len() + 1int,
        Some(l) => if l < rs.len() {
            rs.len() - l
        } else {
            0
        },
    }
}

/// The edits that the greedy scan picks after `last`: each time the candidate
/// that comes first in the scan order.
pub open spec fn greedy_from(rs: Seq<TextRange>, last: Option<usize>) -> Seq<usize>
    decreases scan_start(rs, last), scan_end(rs, last), scan_index(rs, last),
{
    match best_from(rs, last, 0, None) {
        None => Seq::empty(),
        Some(c) => if c < rs.len() && is_candidate(rs, c as int, last) && (last matches Some(l) ==> l
            < rs.len()) {
            seq![c] + greedy_from(rs, Some(c))
        } else {
            seq![c]
        },
    }
}

/// The edits picked in a round: the well-formed edits scanned in order of start,
/// the shorter first where two start together (the lower index first where both
/// agree), each kept where it overlaps none kept before it.
pub open spec fn greedy_select(rs: Seq<TextRange>) -> Seq<usize> {
    greedy_from(rs, None)
}

/// Picks a maximal set of non-overlapping edits: in order of start (the shorter
/// first where two start together), each edit that overlaps none picked before
/// it. Ranges that end before they start are never picked.
pub fn select_edits(rs: &Vec<TextRange>) -> (sel: Vec<usize>)
    ensures
        sel@ == greedy_select(rs@),
        selection_ok(rs@, sel@),
{
    let n = rs.len();
    let mut sel: Vec<usize> = Vec::new();
    let mut last: Option<usize> = None;
    assert(greedy_from(rs@, None) =~= sel@ + greedy_from(rs@, last));
    loop
        invariant
            n == rs@.len(),
            forall|a: int| 0 <= a < sel@.len() ==> #[trigger] sel@[a] < n && well_formed(rs@[sel@[a] as int]),
            forall|a: int, b: int|
                0 <= a < b < sel@.len() ==> rs@[#[trigger] sel@[a] as int].end <= rs@[#[trigger] sel@[b] as int].start
                    && scan_before(rs@, sel@[a] as int, sel@[b] as int),
            last == (if sel@.len() == 0 { None::<usize> } else { Some(sel@.last()) }),
            match last {
                Some(l) => forall|a: int| 0 <= a < sel@.len() ==> rs@[#[trigger] sel@[a] as int].end <= rs@[l as int].end
                    && (sel@[a] == l || scan_before(rs@, sel@[a] as int, l as int)),
                None => true,
            },
            forall|j: int|
                0 <= j < n && well_formed(#[trigger] rs@[j]) && !is_candidate(rs@, j, last) ==> exists|a: int|
                    0 <= a < sel@.len() && (sel@[a] == j || conflicts(rs@[j], rs@[sel@[a] as int])),
            greedy_from(rs@, None) == sel@ + greedy_from(rs@, last),
        ensures
            sel@ == greedy_from(rs@, None),
            forall|j: int|
                0 <= j < n && well_formed(#[trigger] rs@[j]) ==> exists|a: int|
                    0 <= a < sel@.len() && (sel@[a] == j || conflicts(rs@[j], rs@[sel@[a] as int])),
        decreases scan_start(rs@, last), scan_end(rs@, last), scan_index(rs@, last),
    {
        let mut best: Option<usize> = None;
        let mut j: usize = 0;
        while j < n
            invariant
                n == rs@.len(),
                0 <= j <= n,
                last matches Some(l) ==> l < n,
                best_from(rs@, last, 0, None) == best_from(rs@, last, j as int, best),
                match best {
                    None => forall|x: int| 0 <= x < j ==> !is_candidate(rs@, x, last),
                    Some(b) => b < j && is_candidate(rs@, b as int, last) && forall|x: int|
                        0 <= x < j && is_candidate(rs@, x, last) ==> x == b || scan_before(rs@, b as int, x),
                },
            decreases n - j,
        {
            let r = rs[j];
            let cand = r.start <= r.end && match last {
                None => true,
                Some(l) => r.start >= rs[l].end && (rs[l].start < r.start || (rs[l].start == r.start && (rs[l].end
                    < r.end || (rs[l].end == r.end && l < j)))),
            };
            if cand {
                let better = match best {
                    None => true,
                    Some(b) => r.start < rs[b].start || (r.start == rs[b].start && r.end < rs[b].end),
                };
                if better {
                    best = Some(j);
                }
            }
            j = j + 1;
        }
        match best {
            None => {
                assert(greedy_from(rs@, last) =~= Seq::<usize>::empty());
                assert(sel@ + greedy_from(rs@, last) =~= sel@);
                assert forall|x: int| 0 <= x < n && well_formed(#[trigger] rs@[x]) implies exists|a: int|
                    0 <= a < sel@.len() && (sel@[a] == x || conflicts(rs@[x], rs@[sel@[a] as int])) by {
                    assert(!is_candidate(rs@, x, last));
                }
                break;
            },
            Some(c) => {
                let ghost old_sel = sel@;
                let ghost old_last = last;
                assert(greedy_from(rs@, old_last) == seq![c] + greedy_from(rs@, Some(c)));
                sel.push(c);
                last = Some(c);
                assert(greedy_from(rs@, None) =~= sel@ + greedy_from(rs@, last));
                assert forall|x: int|
                    0 <= x < n && well_formed(#[trigger] rs@[x]) && !is_candidate(rs@, x, last) implies exists|a: int|
                        0 <= a < sel@.len() && (sel@[a] == x || conflicts(rs@[x], rs@[sel@[a] as int])) by {
                    if is_candidate(rs@, x, old_last) {
                        assert(sel@[old_sel.len() as int] == c);
                        if x != c {
                            assert(scan_before(rs@, c as int, x));
                            assert(conflicts(rs@[x], rs@[c as int]));
                        }
                    } else {
                        let a = choose|a: int|
                            0 <= a < old_sel.len() && (old_sel[a] == x || conflicts(rs@[x], rs@[old_sel[a] as int]));
                        assert(sel@[a] == old_sel[a]);
                    }
                }
            },
        }
    }
    sel
}

/// Applies the picked edits of `reps` to `text`, from the last to the first.
pub fn apply_edits(text: &Vec<u8>, reps: &Vec<Report>, sel: &Vec<usize>) -> (r: Vec<u8>)
    requires
        forall|a: int| 0 <= a < sel@.len() ==> #[trigger] sel@[a] < reps@.len(),
    ensures
        r@ == apply_back(text@, views(reps@), sel@),
{
    let mut cur: Vec<u8> = Vec::new();
    append_bytes(&mut cur, text.as_slice());
    assert(cur@ =~= text@);
    let mut k = sel.len();
    assert(sel@.take(k as int) =~= sel@);
    while k > 0
        invariant
            0 <= k <= sel@.len(),
            forall|a: int| 0 <= a < sel@.len() ==> #[trigger] sel@[a] < reps@.len(),
            apply_back(cur@, views(reps@), sel@.take(k as int)) == apply_back(text@, views(reps@), sel@),
        decreases k,
    {
        let rep = &reps[sel[k - 1]];
        let (at, fix) = fix_parts(rep);
        assert(sel@.take(k as int).drop_last() =~= sel@.take(k - 1));
        assert(views(reps@)[sel@[k - 1] as int] == reps@[sel@[k - 1] as int]@);
        cur = splice_bytes(&cur, at, &fix);
        k = k - 1;
    }
    cur
}

/// The edits of one round, in order of start.
pub open spec fn round_fixed(reps: Seq<ReportModel>, sel: Seq<usize>) -> Seq<Fixed> {
    sel.map_values(|j: usize| Fixed { at: fix_range(reps[j as int]), code: reps[j as int].code })
}

/// One round of fix-all on the reports `reps` of the tree `t`: a maximal set of
/// non-conflicting edits is picked in order of start and applied from the last
/// to the first; the result is the new text and the edits applied.
pub fn fix_round(t: &SyntaxTree, reps: &Vec<Report>) -> (r: (Vec<u8>, Vec<Fixed>))
    ensures
        r.0@ == apply_back(t.text@, views(reps@), greedy_select(fix_ranges(views(reps@)))),
        r.1@ == round_fixed(views(reps@), greedy_select(fix_ranges(views(reps@)))),
        forall|a: int, b: int| 0 <= a < b < r.1@.len() ==> (#[trigger] r.1@[a]).at.end <= (#[trigger] r.1@[b]).at.start,
{
    let ghost reps_v = views(reps@);
    let mut ranges: Vec<TextRange> = Vec::new();
    let mut k: usize = 0;
    while k < reps.len()
        invariant
            0 <= k <= reps.len(),
            reps_v == views(reps@),
            ranges@.len() == k,
            forall|x: int| 0 <= x < k ==> #[trigger] ranges@[x] == fix_range(reps@[x]@),
        decreases reps.len() - k,
    {
        let (at, _) = fix_parts(&reps[k]);
        ranges.push(at);
        k = k + 1;
    }
    assert(ranges@ =~= fix_ranges(reps_v));
    let sel = select_edits(&ranges);
    let text = apply_edits(&t.text, reps, &sel);
    let mut fixed: Vec<Fixed> = Vec::new();
    let mut a: usize = 0;
    while a < sel.len()
        invariant
            0 <= a <= sel.len(),
            reps_v == views(reps@),
            ranges@ == fix_ranges(reps_v),
            selection_ok(ranges@, sel@),
            fixed@ =~= round_fixed(reps_v, sel@.take(a as int)),
        decreases sel.len() - a,
    {
        let j = sel[a];
        assert(j < ranges@.len());
        fixed.push(Fixed { at: ranges[j], code: reps[j].code });
        assert(round_fixed(reps_v, sel@.take(a + 1)) =~= round_fixed(reps_v, sel@.take(a as int)).push(
            Fixed { at: fix_range(reps_v[j as int]), code: reps_v[j as int].code },
        ));
        a = a + 1;
    }
    assert(sel@.take(sel.len() as int) =~= sel@);
    assert forall|a: int, b: int| 0 <= a < b < fixed@.len() implies (#[trigger] fixed@[a]).at.end <= (#[trigger] fixed@[b]).at.start by {
        assert(fixed@[a].at == ranges@[sel@[a] as int]);
        assert(fixed@[b].at == ranges@[sel@[b] as int]);
    }
    (text, fixed)
}

/// Why fix-all gave up on a text.
pub enum FixErr {
    /// The file could not be written.
    InvalidPath(String),
    /// The text does not parse, so it is left alone.
    SyntaxError,
    /// A round of edits gave a text that does not parse, or had no well-formed edit.
    BrokenFix,
    /// A round of edits gave bytes that are not UTF-8.
    InvalidText,
    /// A round of edits gave a text too long for 32-bit offsets.
    TooLong,
    /// The text still had something to fix after `MAX_ROUNDS` rounds.
    RoundLimit,
    /// A rule could not make its replacement.
    Internal(InternalError),
}

/// The most rounds that fix-all runs: a guard against rules that keep firing on
/// their own output.
pub const MAX_ROUNDS: usize = 1000;

/// The outcome of fix-all: the final text, and every edit applied, round by round.
pub struct FixResult {
    pub src: String,
    pub fixed: Vec<Fixed>,
}

/// What fix-all comes to.
pub enum FixOutcome {
    Fixed(Seq<char>, Seq<Fixed>),
    SyntaxError,
    BrokenFix,
    InvalidText,
    TooLong,
    RoundLimit,
    Internal,
    InvalidPath,
}

pub open spec fn fix_outcome(r: Result<FixResult, FixErr>) -> FixOutcome {
    match r {
        Ok(res) => FixOutcome::Fixed(res.src@, res.fixed@),
        Err(FixErr::SyntaxError) => FixOutcome::SyntaxError,
        Err(FixErr::BrokenFix) => FixOutcome::BrokenFix,
        Err(FixErr::InvalidText) => FixOutcome::InvalidText,
        Err(FixErr::TooLong) => FixOutcome::TooLong,
        Err(FixErr::RoundLimit) => FixOutcome::RoundLimit,
        Err(FixErr::Internal(_)) => FixOutcome::Internal,
        Err(FixErr::InvalidPath(_)) => FixOutcome::InvalidPath,
    }
}

/// The rounds of fix-all from the text `cur`, round `k` on, with the edits
/// `trail` applied so far. A round collects the reports that carry a
/// suggestion; with none, the text is final. Otherwise, unless `MAX_ROUNDS`
/// rounds have run, the greedy selection of their edits is applied from the last
/// to the first; the round fails where nothing could be picked, where the bytes
/// are not UTF-8 or too long for 32-bit offsets, or where the new text does not parse, and otherwise the next
/// round starts from the new text with the round's edits appended.
pub open spec fn rounds_from(rules: Seq<Lint>, v: Version, cur: Seq<char>, trail: Seq<Fixed>, k: nat) -> FixOutcome
    decreases MAX_ROUNDS - k,
{
    match fix_candidates(rules, cur, v) {
        Err(_) => FixOutcome::Internal,
        Ok(c) => if c.len() == 0 {
            FixOutcome::Fixed(cur, trail)
        } else if k >= MAX_ROUNDS {
            FixOutcome::RoundLimit
        } else {
            let sel = greedy_select(fix_ranges(c));
            let b = apply_back(encode_utf8(cur), c, sel);
            if sel.len() == 0 {
                FixOutcome::BrokenFix
            } else if !valid_utf8(b) {
                FixOutcome::InvalidText
            } else if b.len() > u32::MAX {
                FixOutcome::TooLong
            } else if syntax_errors(decode_utf8(b)).len() != 0 {
                FixOutcome::BrokenFix
            } else {
                rounds_from(rules, v, decode_utf8(b), trail + round_fixed(c, sel), k + 1)
            }
        },
    }
}

/// Fix-all on `src`: refused where `src` does not parse, and otherwise its rounds.
pub open spec fn fix_all(rules: Seq<Lint>, v: Version, src: Seq<char>) -> FixOutcome {
    if syntax_errors(src).len() != 0 {
        FixOutcome::SyntaxError
    } else {
        rounds_from(rules, v, src, Seq::empty(), 0)
    }
}

/// `t` parses, and no rule has a suggestion for it.
pub open spec fn is_final(rules: Seq<Lint>, v: Version, t: Seq<char>) -> bool {
    syntax_errors(t).len() == 0 && (fix_candidates(rules, t, v) matches Ok(c) && c.len() == 0)
}

proof fn lemma_rounds_end_at_fixpoint(rules: Seq<Lint>, v: Version, cur: Seq<char>, trail: Seq<Fixed>, k: nat)
    requires
        syntax_errors(cur).len() == 0,
        rounds_from(rules, v, cur, trail, k) is Fixed,
    ensures
        rounds_from(rules, v, cur, trail, k) matches FixOutcome::Fixed(t, f) && is_final(rules, v, t),
    decreases MAX_ROUNDS - k,
{
    match fix_candidates(rules, cur, v) {
        Err(_) => {},
        Ok(c) => if c.len() != 0 && k < MAX_ROUNDS {
            let sel = greedy_select(fix_ranges(c));
            let b = apply_back(encode_utf8(cur), c, sel);
            lemma_rounds_end_at_fixpoint(rules, v, decode_utf8(b), trail + round_fixed(c, sel), k + 1);
        },
    }
}

/// Every text that fix-all gives back parses, and no rule would fix it further.
pub proof fn law_fix_all_result_parses(rules: Seq<Lint>, v: Version, src: Seq<char>)
    requires
        fix_all(rules, v, src) is Fixed,
    ensures
        fix_all(rules, v, src) matches FixOutcome::Fixed(t, f) && is_final(rules, v, t),
{
    lemma_rounds_end_at_fixpoint(rules, v, src, Seq::empty(), 0);
}

/// Fix-all run again on its own output changes nothing and applies no edit.
pub proof fn law_fix_all_idempotent(rules: Seq<Lint>, v: Version, src: Seq<char>)
    requires
        fix_all(rules, v, src) is Fixed,
    ensures
        fix_all(rules, v, src) matches FixOutcome::Fixed(t, f) && fix_all(rules, v, t) == FixOutcome::Fixed(
            t,
            Seq::empty(),
        ),
{
    law_fix_all_result_parses(rules, v, src);
}

/// Fixes `src` until no rule has a suggestion left: each round parses the text,
/// collects the reports that carry a suggestion, picks a maximal set of
/// non-overlapping edits in order of start, applies them from the last to the
/// first, and checks that the new text parses (see `rounds_from`).
pub fn all_with(src: &str, lints: &LintMap, sess: &SessionInfo) -> (r: Result<FixResult, FixErr>)
    requires
        lints.wf(),
        src.spec_bytes().len() <= u32::MAX,
    ensures
        fix_outcome(r) == fix_all(lints.rules@, sess.nix_version, src@),
{
    if !parses(src) {
        return Err(FixErr::SyntaxError);
    }
    let ghost v = sess.nix_version;
    let mut cur: String = src.to_owned();
    let mut fixed: Vec<Fixed> = Vec::new();
    let mut rounds: usize = 0;
    assert(fixed@ =~= Seq::<Fixed>::empty());
    loop
        invariant
            lints.wf(),
            v == sess.nix_version,
            rounds <= MAX_ROUNDS,
            syntax_errors(cur@).len() == 0,
            encode_utf8(cur@).len() <= u32::MAX,
            fix_all(lints.rules@, v, src@) == rounds_from(lints.rules@, v, cur@, fixed@, rounds as nat),
        decreases MAX_ROUNDS - rounds,
    {
        let t = parse_tree(cur.as_str());
        let reps = match collect_fixes(&t, lints, sess) {
            Ok(r) => r,
            Err(e) => return Err(FixErr::Internal(e)),
        };
        if reps.len() == 0 {
            assert(views(reps@) =~= Seq::<ReportModel>::empty());
            return Ok(FixResult { src: cur, fixed });
        }
        if rounds == MAX_ROUNDS {
            return Err(FixErr::RoundLimit);
        }
        let (text, round_fixed) = fix_round(&t, &reps);
        if round_fixed.len() == 0 {
            return Err(FixErr::BrokenFix);
        }
        let ghost before = fixed@;
        let mut a: usize = 0;
        while a < round_fixed.len()
            invariant
                0 <= a <= round_fixed.len(),
                fixed@ == before + round_fixed@.take(a as int),
            decreases round_fixed.len() - a,
        {
            fixed.push(round_fixed[a]);
            assert(round_fixed@.take(a + 1) =~= round_fixed@.take(a as int).push(round_fixed@[a as int]));
            assert(fixed@ =~= before + round_fixed@.take(a + 1));
            a = a + 1;
        }
        assert(round_fixed@.take(round_fixed.len() as int) =~= round_fixed@);
        let too_long = text.len() > 0xFFFF_FFFF;
        let ghost bytes = text@;
        let next = match string_from_utf8(text) {
            Some(s) => s,
            None => return Err(FixErr::InvalidText),
        };
        if too_long {
            return Err(FixErr::TooLong);
        }
        proof {
            vstd::utf8::decode_utf8_encode_utf8(bytes);
        }
        if !parses(next.as_str()) {
            return Err(FixErr::BrokenFix);
        }
        cur = next;
        rounds = rounds + 1;
    }
}

} // verus!
