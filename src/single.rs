//! The single fix: the first suggestion whose range holds a given position is
//! applied, once, with no further parse.
use vstd::prelude::*;
use vstd::string::StringSliceAdditionalSpecFns;
use vstd::utf8::{decode_utf8, encode_utf8, valid_utf8};
use crate::fix::{collect_fixes, fix_candidates, fix_parts, fix_range, fix_text, splice, splice_bytes};
use crate::lint::views;
use crate::lints::Lint;
use crate::make::string_from_utf8;
use crate::registry::LintMap;
use crate::report::{InternalError, ReportModel};
use crate::session::{SessionInfo, Version};
use crate::syntax::parse_tree;

verus! {

/// Why a single fix failed.
pub enum SingleFixErr {
    /// The file could not be read or written.
    InvalidPath(String),
    /// The position lies beyond the text: its line and column.
    OutOfBounds(usize, usize),
    /// The column, or the offset it gives, does not fit a text offset.
    Conversion(usize),
    /// No suggestion covers the position.
    NoOp,
    /// The edit gave bytes that are not UTF-8.
    InvalidText,
    /// A rule could not make its replacement.
    Internal(InternalError),
}

/// The text after a single fix.
pub struct SingleFixResult {
    pub src: String,
}

/// The index of the first line feed in `b` at or after `j`, or the length of `b`.
pub open spec fn newline_from(b: Seq<u8>, j: int) -> int
    decreases b.len() - j,
{
    if j < 0 || j >= b.len() {
        b.len() as int
    } else if b[j] == 10 {
        j
    } else {
        newline_from(b, j + 1)
    }
}

/// The number of bytes in the first `n` lines of `b`, each with its line feed.
pub open spec fn line_prefix(b: Seq<u8>, n: nat) -> int
    decreases n,
{
    if n == 0 {
        0
    } else {
        let p = line_prefix(b, (n - 1) as nat);
        if p >= b.len() {
            b.len() as int
        } else {
            let q = newline_from(b, p);
            if q < b.len() {
                q + 1
            } else {
                b.len() as int
            }
        }
    }
}

/// Where a position lands.
pub enum Offset {
    At(u32),
    OutOfBounds,
    Conversion,
}

/// The byte offset of `col` bytes into line `line` (counted from one) of `b`: a
/// column too large for an offset is refused first, then an offset at or past
/// the end of the text, then an offset too large.
pub open spec fn offset_of(line: usize, col: usize, b: Seq<u8>) -> Offset {
    let before: nat = if line == 0 {
        0
    } else {
        (line - 1) as nat
    };
    let off = line_prefix(b, before) + col;
    if col > u32::MAX {
        Offset::Conversion
    } else if off >= b.len() {
        Offset::OutOfBounds
    } else if off > u32::MAX {
        Offset::Conversion
    } else {
        Offset::At(off as u32)
    }
}

proof fn lemma_line_prefix_bounds(b: Seq<u8>, n: nat)
    ensures
        0 <= line_prefix(b, n) <= b.len(),
    decreases n,
{
    if n > 0 {
        lemma_line_prefix_bounds(b, (n - 1) as nat);
        lemma_newline_from_bounds(b, line_prefix(b, (n - 1) as nat));
    }
}

proof fn lemma_newline_from_bounds(b: Seq<u8>, j: int)
    requires
        0 <= j,
    ensures
        j <= newline_from(b, j) <= b.len() || (j > b.len() && newline_from(b, j) == b.len()),
    decreases b.len() - j,
{
    if j < b.len() && b[j] != 10 {
        lemma_newline_from_bounds(b, j + 1);
    }
}

proof fn lemma_line_prefix_at_end(b: Seq<u8>, k: nat, n: nat)
    requires
        k <= n,
        line_prefix(b, k) >= b.len(),
    ensures
        line_prefix(b, n) == b.len(),
    decreases n - k,
{
    lemma_line_prefix_bounds(b, k);
    if k < n {
        assert(line_prefix(b, k + 1) == b.len());
        lemma_line_prefix_at_end(b, k + 1, n);
    }
}

/// The byte offset of a line and column of `src` (see `offset_of`).
pub fn pos_to_byte(line: usize, col: usize, src: &[u8]) -> (r: Result<u32, SingleFixErr>)
    ensures
        match offset_of(line, col, src@) {
            Offset::At(o) => r matches Ok(x) && x == o,
            Offset::OutOfBounds => r matches Err(SingleFixErr::OutOfBounds(l, c)) && l == line && c == col,
            Offset::Conversion => r matches Err(SingleFixErr::Conversion(c)) && c == col,
        },
{
    if col > 0xFFFF_FFFF {
        return Err(SingleFixErr::Conversion(col));
    }
    let before: usize = if line == 0 {
        0
    } else {
        line - 1
    };
    let n = src.len();
    let mut p: usize = 0;
    let mut k: usize = 0;
    while k < before && p < n
        invariant
            0 <= k <= before,
            n == src@.len(),
            p == line_prefix(src@, k as nat),
            p <= n,
        decreases before - k,
    {
        let mut q = p;
        while q < n && src[q] != 10
            invariant
                p <= q <= n,
                n == src@.len(),
                newline_from(src@, p as int) == newline_from(src@, q as int),
            decreases n - q,
        {
            q = q + 1;
        }
        assert(line_prefix(src@, (k + 1) as nat) == (if q < n { q + 1 } else { n as int }));
        p = if q < n {
            q + 1
        } else {
            n
        };
        k = k + 1;
    }
    proof {
        if k < before {
            lemma_line_prefix_at_end(src@, k as nat, before as nat);
        }
    }
    if col >= n - p {
        return Err(SingleFixErr::OutOfBounds(line, col));
    }
    let off = p + col;
    if off > 0xFFFF_FFFF {
        return Err(SingleFixErr::Conversion(col));
    }
    Ok(off as u32)
}

/// The first report of `rs` whose edit's range holds `off`.
pub open spec fn first_containing(rs: Seq<ReportModel>, off: u32) -> Option<ReportModel>
    decreases rs.len(),
{
    if rs.len() == 0 {
        None
    } else if fix_range(rs[0]).start <= off < fix_range(rs[0]).end {
        Some(rs[0])
    } else {
        first_containing(rs.drop_first(), off)
    }
}

/// What a single fix comes to.
pub enum SingleOutcome {
    Fixed(Seq<char>),
    OutOfBounds(usize, usize),
    Conversion(usize),
    NoOp,
    InvalidText,
    InvalidPath,
    Internal,
}

pub open spec fn outcome_of(r: Result<SingleFixResult, SingleFixErr>) -> SingleOutcome {
    match r {
        Ok(res) => SingleOutcome::Fixed(res.src@),
        Err(SingleFixErr::OutOfBounds(l, c)) => SingleOutcome::OutOfBounds(l, c),
        Err(SingleFixErr::Conversion(c)) => SingleOutcome::Conversion(c),
        Err(SingleFixErr::NoOp) => SingleOutcome::NoOp,
        Err(SingleFixErr::InvalidText) => SingleOutcome::InvalidText,
        Err(SingleFixErr::InvalidPath(_)) => SingleOutcome::InvalidPath,
        Err(SingleFixErr::Internal(_)) => SingleOutcome::Internal,
    }
}

/// The single fix at `line`, `col` of `src`: the first report in traversal
/// order that carries a suggestion whose range holds the offset has that
/// suggestion spliced in.
pub open spec fn single_outcome(line: usize, col: usize, src: Seq<char>, rules: Seq<Lint>, v: Version) -> SingleOutcome {
    let b = encode_utf8(src);
    match offset_of(line, col, b) {
        Offset::OutOfBounds => SingleOutcome::OutOfBounds(line, col),
        Offset::Conversion => SingleOutcome::Conversion(col),
        Offset::At(off) => match fix_candidates(rules, src, v) {
            Err(_) => SingleOutcome::Internal,
            Ok(cands) => match first_containing(cands, off) {
                None => SingleOutcome::NoOp,
                Some(rep) => {
                    let out = splice(b, fix_range(rep), fix_text(rep));
                    if valid_utf8(out) {
                        SingleOutcome::Fixed(decode_utf8(out))
                    } else {
                        SingleOutcome::InvalidText
                    }
                },
            },
        },
    }
}

/// The same position in the same text, under the same rules and version,
/// always gives the same fix.
pub proof fn law_single_fix_deterministic(
    line: usize,
    col: usize,
    src: Seq<char>,
    rules: Seq<Lint>,
    v: Version,
    first: Result<SingleFixResult, SingleFixErr>,
    second: Result<SingleFixResult, SingleFixErr>,
)
    requires
        outcome_of(first) == single_outcome(line, col, src, rules, v),
        outcome_of(second) == single_outcome(line, col, src, rules, v),
    ensures
        outcome_of(first) == outcome_of(second),
{
}

/// Applies the one suggestion at `line`, `col` of `src`, with the rules of `lints`.
pub fn single_with(line: usize, col: usize, src: &str, lints: &LintMap, sess: &SessionInfo) -> (r: Result<SingleFixResult, SingleFixErr>)
    requires
        lints.wf(),
        src.spec_bytes().len() <= u32::MAX,
    ensures
        outcome_of(r) == single_outcome(line, col, src@, lints.rules@, sess.nix_version),
{
    let bytes = src.as_bytes();
    let off = match pos_to_byte(line, col, bytes) {
        Ok(o) => o,
        Err(e) => return Err(e),
    };
    let t = parse_tree(src);
    let reps = match collect_fixes(&t, lints, sess) {
        Ok(r) => r,
        Err(e) => return Err(SingleFixErr::Internal(e)),
    };
    let ghost all = views(reps@);
    assert(fix_candidates(lints.rules@, src@, sess.nix_version) == Ok::<Seq<ReportModel>, InternalError>(all));
    assert(t.text@ == encode_utf8(src@));
    let mut k: usize = 0;
    assert(all.skip(0) =~= all);
    while k < reps.len()
        invariant
            0 <= k <= reps.len(),
            all == views(reps@),
            fix_candidates(lints.rules@, src@, sess.nix_version) == Ok::<Seq<ReportModel>, InternalError>(all),
            t.text@ == encode_utf8(src@),
            offset_of(line, col, encode_utf8(src@)) == Offset::At(off),
            first_containing(all, off) == first_containing(all.skip(k as int), off),
        decreases reps.len() - k,
    {
        let (at, fix) = fix_parts(&reps[k]);
        assert(all.skip(k as int).drop_first() =~= all.skip(k + 1));
        assert(all.skip(k as int)[0] == reps@[k as int]@);
        if at.start <= off && off < at.end {
            assert(first_containing(all, off) == Some(reps@[k as int]@));
            let out = splice_bytes(&t.text, at, &fix);
            return match string_from_utf8(out) {
                Some(s) => Ok(SingleFixResult { src: s }),
                None => Err(SingleFixErr::InvalidText),
            };
        }
        k = k + 1;
    }
    Err(SingleFixErr::NoOp)
}

/// Applies the one suggestion at `line`, `col` of `src`, with every rule.
pub fn single(line: usize, col: usize, src: &str, sess: &SessionInfo) -> (r: Result<SingleFixResult, SingleFixErr>)
    requires
        src.spec_bytes().len() <= u32::MAX,
    ensures
        outcome_of(r) == single_outcome(line, col, src@, crate::lints::all_lints(), sess.nix_version),
{
    single_with(line, col, src, &crate::registry::lint_map(), sess)
}

} // verus!
