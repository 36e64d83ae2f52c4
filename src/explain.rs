//! Explanations of reports, looked up by code.
use vstd::prelude::*;
use crate::lints::{all_lints, lint_code, lint_explanation, lints, Lint};

verus! {

/// No rule has the code asked for.
pub enum ExplainErr {
    LintNotFound(u32),
}

/// The first rule of `rs` with code `code`.
pub open spec fn lint_with_code(rs: Seq<Lint>, code: u32) -> Option<Lint>
    decreases rs.len(),
{
    if rs.len() == 0 {
        None
    } else if lint_code(rs[0]) == code {
        Some(rs[0])
    } else {
        lint_with_code(rs.drop_first(), code)
    }
}

/// The rule with code `code`, if there is one.
pub fn find_lint(code: u32) -> (r: Option<Lint>)
    ensures
        r == lint_with_code(all_lints(), code),
{
    let all = lints();
    let mut i: usize = 0;
    assert(all@.skip(0) =~= all@);
    while i < all.len()
        invariant
            0 <= i <= all.len(),
            all@ == all_lints(),
            lint_with_code(all@, code) == lint_with_code(all@.skip(i as int), code),
        decreases all.len() - i,
    {
        assert(all@.skip(i as int).drop_first() =~= all@.skip(i + 1));
        if all[i].code() == code {
            return Some(all[i]);
        }
        i = i + 1;
    }
    None
}

/// The explanation of code `code`: code 0 is a syntax error; any other code is
/// explained by the documentation of the rule that has it.
pub fn explain(code: u32) -> (r: Result<&'static str, ExplainErr>)
    ensures
        code == 0 ==> (r matches Ok(s) && s@ == "syntax error"@),
        code != 0 ==> match lint_with_code(all_lints(), code) {
            Some(l) => r matches Ok(s) && s@ == lint_explanation(l),
            None => r matches Err(ExplainErr::LintNotFound(c)) && c == code,
        },
{
    if code == 0 {
        return Ok("syntax error");
    }
    match find_lint(code) {
        Some(l) => Ok(l.explanation()),
        None => Err(ExplainErr::LintNotFound(code)),
    }
}

/// The largest code that a rule has.
pub const MAX_CODE: u32 = 23;

/// The rules with codes up to `n` (excluded), in order of code.
pub open spec fn listing_upto(n: nat) -> Seq<Lint>
    decreases n,
{
    if n == 0 {
        Seq::empty()
    } else {
        let rest = listing_upto((n - 1) as nat);
        match lint_with_code(all_lints(), (n - 1) as u32) {
            Some(l) => rest.push(l),
            None => rest,
        }
    }
}

/// Every rule, in order of code.
pub fn listing() -> (r: Vec<Lint>)
    ensures
        r@ == listing_upto(MAX_CODE as nat + 1),
{
    let mut out: Vec<Lint> = Vec::new();
    let mut c: u32 = 0;
    while c <= MAX_CODE
        invariant
            c <= MAX_CODE + 1,
            out@ == listing_upto(c as nat),
        decreases MAX_CODE + 1 - c,
    {
        match find_lint(c) {
            Some(l) => out.push(l),
            None => {},
        }
        c = c + 1;
    }
    out
}

/// The errors of the command-line operations, by operation.
pub enum StatixErr {
    Fix(crate::fix::FixErr),
    Single(crate::single::SingleFixErr),
    Config(crate::config::ConfigErr),
    Explain(ExplainErr),
}

} // verus!
