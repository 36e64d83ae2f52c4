//! The lint driver: every element of the tree, in preorder, is handed to the
//! rules registered for its kind; the parser's errors follow as reports of
//! their own.
use vstd::prelude::*;
use vstd::string::StringSliceAdditionalSpecFns;
use crate::lints::{lemma_rule_report_within, report_within, rule_report, Lint};
use crate::registry::{rules_for, LintMap, KIND_COUNT};
use crate::report::{DiagnosticModel, InternalError, Report, ReportModel};
use crate::session::{SessionInfo, Version};
use crate::syntax::{
    error_range, parse_errors, parse_tree, ranges_in_text, raw_range_within, syntax_errors, tree_model, tree_of, wf_tree, SyntaxTree,
    TreeModel,
};

verus! {

/// The rules that the registry of `rules` dispatches on kind `k`.
pub open spec fn dispatch(rules: Seq<Lint>, k: u16) -> Seq<Lint> {
    if k < KIND_COUNT {
        rules_for(rules, k)
    } else {
        Seq::empty()
    }
}

/// What the rules `rs` report on element `i`, in their order; an internal
/// error where one of them fails.
pub open spec fn node_reports(rs: Seq<Lint>, t: TreeModel, i: int, v: Version) -> Result<Seq<ReportModel>, InternalError>
    decreases rs.len(),
{
    if rs.len() == 0 {
        Ok(Seq::empty())
    } else {
        match node_reports(rs.drop_last(), t, i, v) {
            Err(e) => Err(e),
            Ok(s) => match rule_report(rs.last(), t, i, v) {
                Err(e) => Err(e),
                Ok(Some(r)) => Ok(s.push(r)),
                Ok(None) => Ok(s),
            },
        }
    }
}

/// What the rules report on the first `n` elements of `t`, in preorder; an
/// internal error where one of them fails.
pub open spec fn walk_reports(rules: Seq<Lint>, t: TreeModel, n: int, v: Version) -> Result<Seq<ReportModel>, InternalError>
    decreases n,
{
    if n <= 0 {
        Ok(Seq::empty())
    } else {
        match walk_reports(rules, t, n - 1, v) {
            Err(e) => Err(e),
            Ok(s) => match node_reports(dispatch(rules, t.elements[n - 1].kind), t, n - 1, v) {
                Err(e) => Err(e),
                Ok(x) => Ok(s + x),
            },
        }
    }
}

proof fn lemma_walk_err(rules: Seq<Lint>, t: TreeModel, m: int, n: int, v: Version)
    requires
        0 <= m <= n,
        walk_reports(rules, t, m, v) is Err,
    ensures
        walk_reports(rules, t, n, v) is Err,
    decreases n - m,
{
    if m < n {
        lemma_walk_err(rules, t, m, n - 1, v);
    }
}

proof fn lemma_node_within(rs: Seq<Lint>, t: TreeModel, i: int, v: Version)
    requires
        ranges_in_text(t),
        0 <= i < t.elements.len(),
    ensures
        match node_reports(rs, t, i, v) {
            Ok(s) => forall|k: int| 0 <= k < s.len() ==> report_within(#[trigger] s[k], t.text.len() as int),
            Err(_) => true,
        },
    decreases rs.len(),
{
    if rs.len() > 0 {
        lemma_node_within(rs.drop_last(), t, i, v);
        lemma_rule_report_within(rs.last(), t, i, v);
    }
}

proof fn lemma_walk_within(rules: Seq<Lint>, t: TreeModel, n: int, v: Version)
    requires
        ranges_in_text(t),
        n <= t.elements.len(),
    ensures
        match walk_reports(rules, t, n, v) {
            Ok(s) => forall|k: int| 0 <= k < s.len() ==> report_within(#[trigger] s[k], t.text.len() as int),
            Err(_) => true,
        },
    decreases n,
{
    if n > 0 {
        lemma_walk_within(rules, t, n - 1, v);
        lemma_node_within(dispatch(rules, t.elements[n - 1].kind), t, n - 1, v);
        match walk_reports(rules, t, n - 1, v) {
            Ok(s) => match node_reports(dispatch(rules, t.elements[n - 1].kind), t, n - 1, v) {
                Ok(x) => {
                    assert forall|k: int| 0 <= k < (s + x).len() implies report_within(#[trigger] (s + x)[k], t.text.len() as int) by {
                        if k < s.len() {
                            assert((s + x)[k] == s[k]);
                        } else {
                            assert((s + x)[k] == x[k - s.len()]);
                        }
                    }
                },
                Err(_) => {},
            },
            Err(_) => {},
        }
    }
}

/// The report that stands for a parse error.
pub open spec fn syntax_error_report(e: (Seq<char>, Option<(u32, u32)>)) -> ReportModel {
    ReportModel {
        note: "syntax error"@,
        code: 0,
        diagnostics: seq![DiagnosticModel { at: error_range(e.1), message: e.0, suggestion: None }],
    }
}

/// The reports of a text: those of the rules in traversal order, then one per
/// parse error; an internal error where a rule fails.
pub open spec fn lint_reports(rules: Seq<Lint>, src: Seq<char>, v: Version) -> Result<Seq<ReportModel>, InternalError> {
    match walk_reports(rules, tree_model(src), tree_of(src).len() as int, v) {
        Err(e) => Err(e),
        Ok(s) => Ok(s + syntax_errors(src).map_values(|e: (Seq<char>, Option<(u32, u32)>)| syntax_error_report(e))),
    }
}

pub open spec fn views(rs: Seq<Report>) -> Seq<ReportModel> {
    rs.map_values(|r: Report| r@)
}

pub open spec fn reports_view(r: Result<Vec<Report>, InternalError>) -> Result<Seq<ReportModel>, InternalError> {
    match r {
        Ok(v) => Ok(views(v@)),
        Err(e) => Err(e),
    }
}

pub open spec fn lint_view(r: Result<LintResult, InternalError>) -> Result<Seq<ReportModel>, InternalError> {
    match r {
        Ok(lr) => Ok(views(lr.reports@)),
        Err(e) => Err(e),
    }
}

/// The reports on one file.
pub struct LintResult {
    pub file_id: usize,
    pub reports: Vec<Report>,
}

/// The reports of the rules on every element of `t`, in traversal order.
pub fn walk(t: &SyntaxTree, lints: &LintMap, sess: &SessionInfo) -> (r: Result<Vec<Report>, InternalError>)
    requires
        wf_tree(t),
        lints.wf(),
    ensures
        reports_view(r) == walk_reports(lints.rules@, t@, t.elements@.len() as int, sess.nix_version),
{
    let ghost v = sess.nix_version;
    let mut out: Vec<Report> = Vec::new();
    let mut i: usize = 0;
    assert(views(out@) =~= Seq::<ReportModel>::empty());
    while i < t.len()
        invariant
            wf_tree(t),
            lints.wf(),
            v == sess.nix_version,
            0 <= i <= t.elements@.len(),
            walk_reports(lints.rules@, t@, i as int, v) == Ok::<Seq<ReportModel>, InternalError>(views(out@)),
        decreases t.elements@.len() - i,
    {
        let k = t.kind(i);
        let empty: Vec<Lint> = Vec::new();
        let rules = if k < KIND_COUNT {
            lints.get(k)
        } else {
            &empty
        };
        assert(rules@ == dispatch(lints.rules@, k));
        let ghost before = views(out@);
        let mut j: usize = 0;
        while j < rules.len()
            invariant
                wf_tree(t),
                v == sess.nix_version,
                i < t.elements@.len(),
                0 <= j <= rules.len(),
                rules@ == dispatch(lints.rules@, t.elements@[i as int].kind),
                walk_reports(lints.rules@, t@, i as int, v) == Ok::<Seq<ReportModel>, InternalError>(before),
                node_reports(rules@.take(j as int), t@, i as int, v) matches Ok(x) && views(out@) == before + x,
            decreases rules.len() - j,
        {
            assert(rules@.take(j + 1).drop_last() =~= rules@.take(j as int));
            assert(rules@.take(j + 1).last() == rules@[j as int]);
            let ghost prev = out@;
            match rules[j].validate(t, i, sess) {
                Ok(Some(rep)) => {
                    out.push(rep);
                    assert(views(out@) =~= views(prev).push(out@.last()@));
                },
                Ok(None) => {
                    assert(views(out@) =~= views(prev));
                },
                Err(e) => {
                    proof {
                        assert(rules@.take(rules.len() as int) =~= rules@);
                        lemma_node_err(rules@, t@, i as int, v, j as int + 1);
                        lemma_walk_err(lints.rules@, t@, i + 1, t.elements@.len() as int, v);
                    }
                    return Err(e);
                },
            }
            assert(node_reports(rules@.take(j + 1), t@, i as int, v) matches Ok(x) && views(out@) =~= before + x);
            j = j + 1;
        }
        assert(rules@.take(rules.len() as int) =~= rules@);
        i = i + 1;
    }
    Ok(out)
}

proof fn lemma_node_err(rs: Seq<Lint>, t: TreeModel, i: int, v: Version, m: int)
    requires
        0 <= m <= rs.len(),
        node_reports(rs.take(m), t, i, v) is Err,
    ensures
        node_reports(rs, t, i, v) is Err,
    decreases rs.len() - m,
{
    if m < rs.len() {
        assert(rs.take(m + 1).drop_last() =~= rs.take(m));
        lemma_node_err(rs, t, i, v, m + 1);
    } else {
        assert(rs.take(m) =~= rs);
    }
}

/// Lints `src`: the reports of the rules of `lints`, then one per parse error.
/// Malformed input is linted as far as the parser recovered it.
#[must_use]
pub fn lint_with(file_id: usize, src: &str, lints: &LintMap, sess: &SessionInfo) -> (r: Result<LintResult, InternalError>)
    requires
        lints.wf(),
        src.spec_bytes().len() <= u32::MAX,
    ensures
        lint_view(r) == lint_reports(lints.rules@, src@, sess.nix_version),
        r matches Ok(lr) ==> lr.file_id == file_id,
        r matches Ok(lr) ==> forall|k: int|
            0 <= k < lr.reports@.len() ==> report_within((#[trigger] lr.reports@[k])@, src.spec_bytes().len() as int),
{
    let t = parse_tree(src);
    proof {
        lemma_walk_within(lints.rules@, t@, t.elements@.len() as int, sess.nix_version);
    }
    let mut reports = match walk(&t, lints, sess) {
        Ok(r) => r,
        Err(e) => return Err(e),
    };
    let errors = parse_errors(src);
    let ghost rule_part = views(reports@);
    let ghost errs = syntax_errors(src@);
    let mut k: usize = 0;
    while k < errors.len()
        invariant
            0 <= k <= errors.len(),
            errors@.len() == errs.len(),
            forall|x: int|
                0 <= x < errors@.len() ==> (#[trigger] errors@[x]).at == error_range(errs[x].1)
                    && errors@[x].message@ == errs[x].0,
            views(reports@) == rule_part + errs.take(k as int).map_values(
                |e: (Seq<char>, Option<(u32, u32)>)| syntax_error_report(e),
            ),
        decreases errors.len() - k,
    {
        let ghost prev = reports@;
        let rep = Report::new("syntax error", 0).diagnostic(errors[k].at, errors[k].message.clone());
        reports.push(rep);
        assert(views(reports@) =~= views(prev).push(reports@.last()@));
        assert(errs.take(k + 1).map_values(
            |e: (Seq<char>, Option<(u32, u32)>)| syntax_error_report(e),
        ) =~= errs.take(k as int).map_values(
            |e: (Seq<char>, Option<(u32, u32)>)| syntax_error_report(e),
        ).push(syntax_error_report(errs[k as int])));
        assert(reports@.last()@.diagnostics =~= syntax_error_report(errs[k as int]).diagnostics);
        k = k + 1;
    }
    assert(errs.take(errs.len() as int) =~= errs);
    assert forall|k: int|
        0 <= k < reports@.len() implies report_within((#[trigger] reports@[k])@, src.spec_bytes().len() as int) by {
        assert(views(reports@)[k] == reports@[k]@);
        if k < rule_part.len() {
        } else {
            let e = errs[k - rule_part.len()];
            assert(views(reports@)[k] == syntax_error_report(e));
            assert(raw_range_within(errs[k - rule_part.len()].1, src.spec_bytes().len() as int));
        }
    }
    Ok(LintResult { file_id, reports })
}

/// Lints `src` with every rule.
#[must_use]
pub fn lint(file_id: usize, src: &str, sess: &SessionInfo) -> (r: Result<LintResult, InternalError>)
    requires
        src.spec_bytes().len() <= u32::MAX,
    ensures
        lint_view(r) == lint_reports(crate::lints::all_lints(), src@, sess.nix_version),
        r matches Ok(lr) ==> lr.file_id == file_id,
        r matches Ok(lr) ==> forall|k: int|
            0 <= k < lr.reports@.len() ==> report_within((#[trigger] lr.reports@[k])@, src.spec_bytes().len() as int),
{
    lint_with(file_id, src, &crate::registry::lint_map(), sess)
}

} // verus!
