//! The registry: the enabled rules grouped by the kinds of element they match,
//! built once per run and then only read.
use vstd::prelude::*;
use crate::lints::{all_lints, lint_kinds, lint_name, lints, Lint};

verus! {

/// One past the largest element kind.
pub const KIND_COUNT: u16 = 83;

/// The members of `rs`, in order, that are dispatched on kind `k`.
pub open spec fn rules_for(rs: Seq<Lint>, k: u16) -> Seq<Lint>
    decreases rs.len(),
{
    if rs.len() == 0 {
        Seq::empty()
    } else {
        let rest = rules_for(rs.drop_last(), k);
        if lint_kinds(rs.last()).contains(k) {
            rest.push(rs.last())
        } else {
            rest
        }
    }
}

/// The enabled rules, and for each kind below `KIND_COUNT` those dispatched on it.
pub struct LintMap {
    pub rules: Vec<Lint>,
    pub by_kind: Vec<Vec<Lint>>,
}

impl LintMap {
    /// Each kind's list holds the rules dispatched on it, in registration order.
    pub open spec fn wf(&self) -> bool {
        &&& self.by_kind@.len() == KIND_COUNT
        &&& forall|k: int|
            0 <= k < KIND_COUNT ==> (#[trigger] self.by_kind@[k])@ == rules_for(self.rules@, k as u16)
    }

    /// The rules dispatched on kind `k`, in registration order.
    pub fn get(&self, k: u16) -> (r: &Vec<Lint>)
        requires
            self.wf(),
            k < KIND_COUNT,
        ensures
            r@ == rules_for(self.rules@, k),
    {
        &self.by_kind[k as usize]
    }
}

proof fn lemma_rules_for_push(rs: Seq<Lint>, l: Lint, k: u16)
    ensures
        rules_for(rs.push(l), k) == if lint_kinds(l).contains(k) {
            rules_for(rs, k).push(l)
        } else {
            rules_for(rs, k)
        },
{
    assert(rs.push(l).drop_last() =~= rs);
}

fn rules_for_kind(rules: &Vec<Lint>, k: u16) -> (r: Vec<Lint>)
    ensures
        r@ == rules_for(rules@, k),
{
    let mut out: Vec<Lint> = Vec::new();
    let mut i: usize = 0;
    while i < rules.len()
        invariant
            0 <= i <= rules.len(),
            out@ == rules_for(rules@.take(i as int), k),
        decreases rules.len() - i,
    {
        proof {
            assert(rules@.take(i + 1) =~= rules@.take(i as int).push(rules@[i as int]));
            lemma_rules_for_push(rules@.take(i as int), rules@[i as int], k);
        }
        if rules[i].match_with(k) {
            out.push(rules[i]);
        }
        i = i + 1;
    }
    assert(rules@.take(rules.len() as int) =~= rules@);
    out
}

/// The registry of the given rules.
pub fn lint_map_of(rules: &Vec<Lint>) -> (r: LintMap)
    ensures
        r.wf(),
        r.rules@ == rules@,
{
    let mut by_kind: Vec<Vec<Lint>> = Vec::new();
    let mut k: u16 = 0;
    while k < KIND_COUNT
        invariant
            0 <= k <= KIND_COUNT,
            by_kind@.len() == k,
            forall|j: int| 0 <= j < k ==> (#[trigger] by_kind@[j])@ == rules_for(rules@, j as u16),
        decreases KIND_COUNT - k,
    {
        by_kind.push(rules_for_kind(rules, k));
        k = k + 1;
    }
    LintMap { rules: rules.clone(), by_kind }
}

/// The registry of every rule.
pub fn lint_map() -> (r: LintMap)
    ensures
        r.wf(),
        r.rules@ == all_lints(),
{
    lint_map_of(&lints())
}

/// The rules of `rs`, in order, whose names are not in `disabled`.
pub open spec fn enabled(rs: Seq<Lint>, disabled: Seq<Seq<char>>) -> Seq<Lint>
    decreases rs.len(),
{
    if rs.len() == 0 {
        Seq::empty()
    } else {
        let rest = enabled(rs.drop_last(), disabled);
        if disabled.contains(lint_name(rs.last())) {
            rest
        } else {
            rest.push(rs.last())
        }
    }
}

fn name_listed(name: &str, disabled: &Vec<String>) -> (r: bool)
    ensures
        r == disabled.deep_view().contains(name@),
{
    let mut i: usize = 0;
    while i < disabled.len()
        invariant
            0 <= i <= disabled.len(),
            forall|j: int| 0 <= j < i ==> disabled.deep_view()[j] != name@,
        decreases disabled.len() - i,
    {
        let a = disabled[i].as_str();
        let same = crate::syntax::bytes_eq(a.as_bytes(), name.as_bytes());
        proof {
            vstd::utf8::encode_utf8_decode_utf8(a@);
            vstd::utf8::encode_utf8_decode_utf8(name@);
            assert(disabled.deep_view()[i as int] == a@);
        }
        if same {
            return true;
        }
        i = i + 1;
    }
    proof {
        if disabled.deep_view().contains(name@) {
            let j = choose|j: int| 0 <= j < disabled.deep_view().len() && disabled.deep_view()[j] == name@;
            assert(disabled.deep_view()[j] != name@);
        }
    }
    false
}

/// The registry of every rule but those named in `disabled`.
pub fn lint_map_without(disabled: &Vec<String>) -> (r: LintMap)
    ensures
        r.wf(),
        r.rules@ == enabled(all_lints(), disabled.deep_view()),
{
    let all = lints();
    let mut kept: Vec<Lint> = Vec::new();
    let mut i: usize = 0;
    while i < all.len()
        invariant
            0 <= i <= all.len(),
            all@ == all_lints(),
            kept@ == enabled(all@.take(i as int), disabled.deep_view()),
        decreases all.len() - i,
    {
        assert(all@.take(i + 1).drop_last() =~= all@.take(i as int));
        if !name_listed(all[i].name(), disabled) {
            kept.push(all[i]);
        }
        i = i + 1;
    }
    assert(all@.take(all.len() as int) =~= all@);
    lint_map_of(&kept)
}

} // verus!
