//! The plain parts of the command line and of the configuration file: what the
//! options mean, and how positions, warning codes and formats are read.
use vstd::prelude::*;
use vstd::string::StringSliceAdditionalSpecFns;
use std::str::FromStr;
use crate::registry::{lint_map_without, enabled, LintMap};
use crate::lints::all_lints;
use crate::session::{digits_value, is_digit};

verus! {

/// Where fixed text goes.
#[derive(Copy, Clone, Debug, PartialEq, Eq, Structural)]
pub enum FixOut {
    /// A unified diff on standard output.
    Diff,
    /// The fixed text on standard output.
    Stream,
    /// The file, in place.
    Write,
}

/// The choice between a diff, a stream and a write.
pub open spec fn fix_out(diff_only: bool, streaming: bool) -> FixOut {
    if diff_only {
        FixOut::Diff
    } else if streaming {
        FixOut::Stream
    } else {
        FixOut::Write
    }
}

/// The command line: one subcommand.
pub struct Opts {
    pub cmd: SubCommand,
}

/// What the linter is asked to do.
pub enum SubCommand {
    /// Report on files.
    Check(Check),
    /// Fix files.
    Fix(Fix),
    /// Fix one position of a file.
    Single(Single),
    /// Explain a report code.
    Explain(Explain),
    /// Print a sample configuration.
    Dump(Dump),
    /// List the rules.
    List(List),
}

/// The options of a check.
pub struct Check {
    pub target: Vec<String>,
    pub ignore: Vec<String>,
    pub unrestricted: bool,
    pub format: OutFormat,
    pub conf_path: String,
    pub streaming: bool,
}

/// The code to explain.
pub struct Explain {
    pub target: u32,
}

pub struct Dump {}

pub struct List {}

/// The options of fix-all that decide where its output goes.
pub struct Fix {
    pub diff_only: bool,
    pub streaming: bool,
}

impl Fix {
    #[must_use]
    pub fn out(&self) -> (r: FixOut)
        ensures
            r == fix_out(self.diff_only, self.streaming),
    {
        if self.diff_only {
            FixOut::Diff
        } else if self.streaming {
            FixOut::Stream
        } else {
            FixOut::Write
        }
    }
}

/// The options of a single fix that decide where its output goes, and the position.
pub struct Single {
    pub position: (usize, usize),
    pub diff_only: bool,
    pub streaming: bool,
}

impl Single {
    #[must_use]
    pub fn out(&self) -> (r: FixOut)
        ensures
            r == fix_out(self.diff_only, self.streaming),
    {
        if self.diff_only {
            FixOut::Diff
        } else if self.streaming {
            FixOut::Stream
        } else {
            FixOut::Write
        }
    }
}

/// How reports are printed.
#[derive(Copy, Clone, Debug, PartialEq, Eq, Structural)]
pub enum OutFormat {
    Json,
    Errfmt,
    StdErr,
}

impl OutFormat {
    /// The name of this format, as the command line takes it.
    pub fn as_str(&self) -> (r: &'static str)
        ensures
            r@ == match *self {
                OutFormat::Json => "json"@,
                OutFormat::Errfmt => "errfmt"@,
                OutFormat::StdErr => "stderr"@,
            },
    {
        match self {
            OutFormat::Json => "json",
            OutFormat::Errfmt => "errfmt",
            OutFormat::StdErr => "stderr",
        }
    }
}

impl Default for OutFormat {
    fn default() -> (r: OutFormat)
        ensures
            r == OutFormat::StdErr,
    {
        OutFormat::StdErr
    }
}

pub open spec fn ascii_lower(b: u8) -> u8 {
    if 65 <= b <= 90 {
        (b + 32) as u8
    } else {
        b
    }
}

pub open spec fn lower_bytes(s: Seq<u8>) -> Seq<u8> {
    s.map_values(|b: u8| ascii_lower(b))
}

fn lower(s: &[u8]) -> (r: Vec<u8>)
    ensures
        r@ == lower_bytes(s@),
{
    let mut r: Vec<u8> = Vec::new();
    let mut i: usize = 0;
    while i < s.len()
        invariant
            0 <= i <= s.len(),
            r@ == lower_bytes(s@.take(i as int)),
        decreases s.len() - i,
    {
        let b = s[i];
        let l = if 65 <= b && b <= 90 {
            b + 32
        } else {
            b
        };
        r.push(l);
        assert(lower_bytes(s@.take(i + 1)) =~= lower_bytes(s@.take(i as int)).push(ascii_lower(b)));
        i = i + 1;
    }
    assert(s@.take(s.len() as int) =~= s@);
    r
}

/// The format named by `s`, in any case.
pub open spec fn out_format_of(s: Seq<u8>) -> Option<OutFormat> {
    let l = lower_bytes(s);
    if l == "json".spec_bytes() {
        Some(OutFormat::Json)
    } else if l == "errfmt".spec_bytes() {
        Some(OutFormat::Errfmt)
    } else if l == "stderr".spec_bytes() {
        Some(OutFormat::StdErr)
    } else {
        None
    }
}

/// Reads an output format: `json`, `errfmt` or `stderr`, in any case.
pub fn parse_out_format(s: &str) -> (r: Result<OutFormat, &'static str>)
    ensures
        match out_format_of(s.spec_bytes()) {
            Some(f) => r == Ok::<OutFormat, &'static str>(f),
            None => r is Err,
        },
{
    let l = lower(s.as_bytes());
    if crate::syntax::bytes_eq(l.as_slice(), "json".as_bytes()) {
        Ok(OutFormat::Json)
    } else if crate::syntax::bytes_eq(l.as_slice(), "errfmt".as_bytes()) {
        Ok(OutFormat::Errfmt)
    } else if crate::syntax::bytes_eq(l.as_slice(), "stderr".as_bytes()) {
        Ok(OutFormat::StdErr)
    } else {
        Err("unknown output format, try: json, errfmt")
    }
}

impl FromStr for OutFormat {
    type Err = &'static str;

    fn from_str(value: &str) -> Result<OutFormat, &'static str> {
        parse_out_format(value)
    }
}

/// What the configuration file sets: rules to turn off, and paths to skip.
pub struct ConfFile {
    pub disabled: Vec<String>,
    pub ignore: Vec<String>,
}

impl ConfFile {
    /// The registry of every rule that this configuration leaves on.
    #[must_use]
    pub fn lints(&self) -> (r: LintMap)
        ensures
            r.wf(),
            r.rules@ == enabled(all_lints(), self.disabled.deep_view()),
    {
        lint_map_without(&self.disabled)
    }
}

/// A configuration value that could not be read.
pub enum ConfigErr {
    InvalidPosition(String),
    InvalidWarningCode(String),
    ConfFileVersionParse(String),
}

/// An unsigned decimal: an optional `+`, then one or more digits and nothing else.
pub open spec fn unsigned_of(s: Seq<u8>) -> Option<nat> {
    let d = unsigned_digits(s);
    if d.len() > 0 && all_digits(d) {
        Some(digits_value(d))
    } else {
        None
    }
}

/// `s` without a leading `+`.
pub open spec fn unsigned_digits(s: Seq<u8>) -> Seq<u8> {
    if s.len() > 0 && s[0] == 43 {
        s.drop_first()
    } else {
        s
    }
}

pub open spec fn all_digits(d: Seq<u8>) -> bool {
    forall|i: int| 0 <= i < d.len() ==> is_digit(#[trigger] d[i])
}

/// Reads an unsigned decimal no larger than `max` (see `unsigned_of`).
fn parse_unsigned(s: &[u8], max: u64) -> (r: Option<u64>)
    requires
        max >= 9,
    ensures
        match unsigned_of(s@) {
            Some(v) => if v <= max {
                r == Some(v as u64)
            } else {
                r is None
            },
            None => r is None,
        },
{
    let start: usize = if s.len() > 0 && s[0] == 43 {
        1
    } else {
        0
    };
    let ghost d = s@.skip(start as int);
    assert(d =~= unsigned_digits(s@));
    if start >= s.len() {
        return None;
    }
    let mut i = start;
    let mut acc: u64 = 0;
    let mut over = false;
    while i < s.len()
        invariant
            start <= i <= s.len(),
            max >= 9,
            d == s@.skip(start as int),
            d == unsigned_digits(s@),
            forall|j: int| start <= j < i ==> is_digit(#[trigger] s@[j]),
            over ==> digits_value(s@.subrange(start as int, i as int)) > max,
            !over ==> acc == digits_value(s@.subrange(start as int, i as int)) && acc <= max,
        decreases s.len() - i,
    {
        let b = s[i];
        if b < 48 || b > 57 {
            assert(d[(i - start) as int] == b);
            assert(!is_digit(d[(i - start) as int]));
            return None;
        }
        let ghost prev = s@.subrange(start as int, i as int);
        assert(s@.subrange(start as int, i + 1).drop_last() =~= prev);
        assert(s@.subrange(start as int, i + 1).last() == b);
        if !over {
            let dv = (b - 48) as u64;
            if acc > (max - dv) / 10 {
                over = true;
                assert(acc * 10 + dv > max) by (nonlinear_arith)
                    requires acc > (max - dv) / 10, dv <= 9, dv <= max || acc >= 0;
            } else {
                assert(acc * 10 + dv <= max) by (nonlinear_arith)
                    requires acc <= (max - dv) / 10, dv <= max;
                acc = acc * 10 + dv;
            }
        }
        i = i + 1;
    }
    assert(s@.subrange(start as int, s.len() as int) =~= d);
    assert forall|j: int| 0 <= j < d.len() implies is_digit(#[trigger] d[j]) by {
        assert(d[j] == s@[j + start]);
    }
    if over {
        None
    } else {
        Some(acc)
    }
}

/// `k` is the place of the one comma in `b`.
pub open spec fn only_comma_at(b: Seq<u8>, k: int) -> bool {
    0 <= k < b.len() && b[k] == 44 && forall|j: int| 0 <= j < b.len() && j != k ==> b[j] != 44
}

/// `line,column`: one comma, with an unsigned decimal that fits a `usize` on
/// each side of it.
pub open spec fn line_col_of(b: Seq<u8>) -> Option<(nat, nat)> {
    if exists|k: int| only_comma_at(b, k) {
        let k = choose|k: int| only_comma_at(b, k);
        match (unsigned_of(b.take(k)), unsigned_of(b.skip(k + 1))) {
            (Some(l), Some(c)) => if l <= usize::MAX && c <= usize::MAX {
                Some((l, c))
            } else {
                None
            },
            _ => None,
        }
    } else {
        None
    }
}

/// Reads `line,column` (see `line_col_of`); anything else is an invalid position.
pub fn parse_line_col(src: &str) -> (r: Result<(usize, usize), ConfigErr>)
    ensures
        match line_col_of(src.spec_bytes()) {
            Some((l, c)) => r matches Ok((x, y)) && x == l && y == c,
            None => r matches Err(ConfigErr::InvalidPosition(s)) && s@ == src@,
        },
{
    let b = src.as_bytes();
    let mut k: usize = 0;
    let mut commas: usize = 0;
    let mut at: usize = 0;
    while k < b.len()
        invariant
            0 <= k <= b.len(),
            b@ == src.spec_bytes(),
            commas <= 1,
            commas == 0 ==> forall|j: int| 0 <= j < k ==> b@[j] != 44,
            commas == 1 ==> at < k && b@[at as int] == 44 && forall|j: int| 0 <= j < k && j != at ==> b@[j] != 44,
        decreases b.len() - k,
    {
        if b[k] == 44 {
            if commas == 1 {
                assert forall|x: int| !only_comma_at(b@, x) by {
                    if only_comma_at(b@, x) {
                        if x == at {
                            assert(b@[k as int] != 44);
                        } else {
                            assert(b@[at as int] != 44);
                        }
                    }
                }
                assert(line_col_of(b@) is None);
                return Err(ConfigErr::InvalidPosition(src.to_owned()));
            }
            at = k;
            commas = 1;
        }
        k = k + 1;
    }
    if commas != 1 {
        assert forall|x: int| !only_comma_at(b@, x) by {
            if only_comma_at(b@, x) {
                assert(b@[x] != 44);
            }
        }
        return Err(ConfigErr::InvalidPosition(src.to_owned()));
    }
    assert(only_comma_at(b@, at as int));
    assert(forall|x: int| only_comma_at(b@, x) ==> x == at);
    let line = parse_unsigned(vstd::slice::slice_subrange(b, 0, at), usize::MAX as u64);
    let col = parse_unsigned(vstd::slice::slice_subrange(b, at + 1, b.len()), usize::MAX as u64);
    assert(b@.subrange(0, at as int) =~= b@.take(at as int));
    assert(b@.subrange(at + 1, b@.len() as int) =~= b@.skip(at + 1));
    match (line, col) {
        (Some(l), Some(c)) => Ok((l as usize, c as usize)),
        _ => Err(ConfigErr::InvalidPosition(src.to_owned())),
    }
}

/// Reads a warning code: `W` or `w` and a decimal gives that number; any other
/// first character gives 0.
pub fn parse_warning_code(src: &str) -> (r: Result<u32, ConfigErr>)
    ensures
        src.spec_bytes().len() == 0 ==> r is Err,
        src.spec_bytes().len() > 0 && src.spec_bytes()[0] != 87 && src.spec_bytes()[0] != 119
            ==> (r matches Ok(c) && c == 0),
        src.spec_bytes().len() > 0 && (src.spec_bytes()[0] == 87 || src.spec_bytes()[0] == 119)
            ==> match unsigned_of(src.spec_bytes().drop_first()) {
            Some(v) => if v <= u32::MAX {
                (r matches Ok(c) && c == v)
            } else {
                r is Err
            },
            None => r is Err,
        },
        r matches Err(ConfigErr::InvalidWarningCode(s)) ==> s@ == src@,
        !(r is Ok) ==> r->Err_0 is InvalidWarningCode,
{
    let b = src.as_bytes();
    if b.len() == 0 {
        return Err(ConfigErr::InvalidWarningCode(src.to_owned()));
    }
    if b[0] != 87 && b[0] != 119 {
        return Ok(0);
    }
    assert(b@.subrange(1, b@.len() as int) =~= b@.drop_first());
    match parse_unsigned(vstd::slice::slice_subrange(b, 1, b.len()), u32::MAX as u64) {
        Some(v) => Ok(v as u32),
        None => Err(ConfigErr::InvalidWarningCode(src.to_owned())),
    }
}

} // verus!
