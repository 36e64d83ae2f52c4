//! Language versions: how they are read from text and how they are ordered.
//! Rules that only apply from some version on consult the session with them.
use vstd::prelude::*;
use std::cmp::Ordering;
use std::str::FromStr;
use vstd::string::StringSliceAdditionalSpecFns;

verus! {

/// A language version: a major and a minor number, and an optional patch number.
#[derive(Copy, Clone, Debug)]
pub struct Version {
    pub major: u16,
    pub minor: u16,
    pub patch: Option<u16>,
}

/// The patch number, where a missing one counts as zero.
pub open spec fn patch_or_zero(v: Version) -> u16 {
    match v.patch {
        Some(p) => p,
        None => 0,
    }
}

/// Versions are ordered lexicographically over (major, minor, patch-or-zero).
pub open spec fn version_cmp(a: Version, b: Version) -> Ordering {
    if a.major < b.major {
        Ordering::Less
    } else if a.major > b.major {
        Ordering::Greater
    } else if a.minor < b.minor {
        Ordering::Less
    } else if a.minor > b.minor {
        Ordering::Greater
    } else if patch_or_zero(a) < patch_or_zero(b) {
        Ordering::Less
    } else if patch_or_zero(a) > patch_or_zero(b) {
        Ordering::Greater
    } else {
        Ordering::Equal
    }
}

/// `a` is at least `b` in the version order.
pub open spec fn version_at_least(a: Version, b: Version) -> bool {
    version_cmp(a, b) != Ordering::Less
}

impl Version {
    pub fn patch_or_zero(&self) -> (r: u16)
        ensures
            r == patch_or_zero(*self),
    {
        match self.patch {
            Some(p) => p,
            None => 0,
        }
    }

    /// Compares two versions lexicographically over (major, minor, patch-or-zero).
    pub fn compare(&self, other: &Version) -> (r: Ordering)
        ensures
            r == version_cmp(*self, *other),
    {
        let (pa, pb) = (self.patch_or_zero(), other.patch_or_zero());
        if self.major < other.major {
            Ordering::Less
        } else if self.major > other.major {
            Ordering::Greater
        } else if self.minor < other.minor {
            Ordering::Less
        } else if self.minor > other.minor {
            Ordering::Greater
        } else if pa < pb {
            Ordering::Less
        } else if pa > pb {
            Ordering::Greater
        } else {
            Ordering::Equal
        }
    }

    /// Whether this version is at least `other`.
    pub fn at_least(&self, other: &Version) -> (r: bool)
        ensures
            r == version_at_least(*self, *other),
    {
        match self.compare(other) {
            Ordering::Less => false,
            _ => true,
        }
    }
}

impl PartialEq for Version {
    fn eq(&self, other: &Version) -> (r: bool) {
        match self.compare(other) {
            Ordering::Equal => true,
            _ => false,
        }
    }
}

impl vstd::std_specs::cmp::PartialEqSpecImpl for Version {
    open spec fn obeys_eq_spec() -> bool {
        true
    }

    open spec fn eq_spec(&self, other: &Version) -> bool {
        version_cmp(*self, *other) == Ordering::Equal
    }
}

impl PartialOrd for Version {
    fn partial_cmp(&self, other: &Version) -> (r: Option<Ordering>) {
        Some(self.compare(other))
    }
}

impl vstd::std_specs::cmp::PartialOrdSpecImpl for Version {
    open spec fn obeys_partial_cmp_spec() -> bool {
        true
    }

    open spec fn partial_cmp_spec(&self, other: &Version) -> Option<Ordering> {
        Some(version_cmp(*self, *other))
    }
}

pub open spec fn is_digit(b: u8) -> bool {
    48 <= b <= 57
}

/// The longest prefix of `s` made of ASCII digits.
pub open spec fn digit_run(s: Seq<u8>) -> Seq<u8>
    decreases s.len(),
{
    if s.len() == 0 || !is_digit(s[0]) {
        Seq::empty()
    } else {
        seq![s[0]] + digit_run(s.drop_first())
    }
}

/// The decimal value of a run of digits.
pub open spec fn digits_value(d: Seq<u8>) -> nat
    decreases d.len(),
{
    if d.len() == 0 {
        0
    } else {
        digits_value(d.drop_last()) * 10 + (d.last() - 48) as nat
    }
}

/// The number at the start of `s`: its leading digits read in decimal, where
/// there is at least one and the value fits in 16 bits.
pub open spec fn number_of(s: Seq<u8>) -> Option<u16> {
    let d = digit_run(s);
    if d.len() == 0 || digits_value(d) > u16::MAX {
        None
    } else {
        Some(digits_value(d) as u16)
    }
}

pub open spec fn is_dot(b: u8) -> bool {
    b == 46
}

/// The index of the first '.' in `s`, if any.
pub open spec fn first_dot(s: Seq<u8>) -> Option<nat>
    decreases s.len(),
{
    if s.len() == 0 {
        None
    } else if is_dot(s[0]) {
        Some(0)
    } else {
        match first_dot(s.drop_first()) {
            Some(i) => Some(i + 1),
            None => None,
        }
    }
}

/// `s` up to its first '.', or the whole of it.
pub open spec fn first_part(s: Seq<u8>) -> Seq<u8> {
    match first_dot(s) {
        Some(i) => s.take(i as int),
        None => s,
    }
}

/// What follows the first '.' of `s`, if there is one.
pub open spec fn after_dot(s: Seq<u8>) -> Option<Seq<u8>> {
    match first_dot(s) {
        Some(i) => Some(s.skip(i + 1 as int)),
        None => None,
    }
}

/// A version read from the bytes of a string: the text is split on '.', the
/// leading digits of the first part give the major number and those of the
/// second the minor; those of a third part, where it is there and has any, give
/// the patch. Whatever else follows the digits is ignored.
pub open spec fn version_of(s: Seq<u8>) -> Option<Version> {
    match (number_of(first_part(s)), after_dot(s)) {
        (Some(major), Some(rest)) => match number_of(first_part(rest)) {
            Some(minor) => Some(
                Version {
                    major,
                    minor,
                    patch: match after_dot(rest) {
                        Some(tail) => number_of(first_part(tail)),
                        None => None,
                    },
                },
            ),
            None => None,
        },
        _ => None,
    }
}

proof fn lemma_digit_run_prefix(s: Seq<u8>, i: int)
    requires
        0 <= i <= s.len(),
        forall|j: int| 0 <= j < i ==> is_digit(#[trigger] s[j]),
    ensures
        i <= digit_run(s).len(),
        digit_run(s).take(i) =~= s.take(i),
        i < s.len() && !is_digit(s[i]) ==> digit_run(s) =~= s.take(i),
        i == s.len() ==> digit_run(s) =~= s,
    decreases i,
{
    if i > 0 {
        let t = s.drop_first();
        assert forall|j: int| 0 <= j < i - 1 implies is_digit(#[trigger] t[j]) by {
            assert(t[j] == s[j + 1]);
        }
        lemma_digit_run_prefix(t, i - 1);
        assert(digit_run(s) =~= seq![s[0]] + digit_run(t));
        assert(digit_run(s).take(i) =~= seq![s[0]] + digit_run(t).take(i - 1));
        assert(s.take(i) =~= seq![s[0]] + t.take(i - 1));
        if i < s.len() && !is_digit(s[i]) {
            assert(!is_digit(t[i - 1]));
            assert(s.take(i) =~= seq![s[0]] + t.take(i - 1));
        }
        if i == s.len() {
            assert(s =~= seq![s[0]] + t);
        }
    } else if s.len() > 0 && !is_digit(s[0]) {
    }
}

/// Reads the number at the start of `s` (see `number_of`).
fn parse_number(s: &[u8]) -> (r: Option<u16>)
    ensures
        r == number_of(s@),
{
    let mut i: usize = 0;
    let mut acc: u32 = 0;
    let mut overflow = false;
    while i < s.len() && 48 <= s[i] && s[i] <= 57
        invariant
            0 <= i <= s.len(),
            forall|j: int| 0 <= j < i ==> is_digit(#[trigger] s@[j]),
            overflow ==> digits_value(s@.take(i as int)) > u16::MAX,
            !overflow ==> acc == digits_value(s@.take(i as int)),
            !overflow ==> acc <= u16::MAX,
        decreases s.len() - i,
    {
        let b = s[i];
        let ghost prev = s@.take(i as int);
        assert(s@.take(i + 1).drop_last() =~= prev);
        assert(s@.take(i + 1).last() == b);
        assert(digits_value(s@.take(i + 1)) == digits_value(prev) * 10 + (b - 48) as nat);
        if !overflow {
            acc = acc * 10 + (b - 48) as u32;
            if acc > 65535 {
                overflow = true;
            }
        }
        i = i + 1;
    }
    proof {
        lemma_digit_run_prefix(s@, i as int);
    }
    assert(digit_run(s@) =~= s@.take(i as int));
    if i == 0 || overflow {
        None
    } else {
        Some(acc as u16)
    }
}

/// The index of the first '.' at or after `from`, or the length of `s`.
fn find_dot(s: &[u8], from: usize) -> (r: usize)
    requires
        from <= s.len(),
    ensures
        from <= r <= s.len(),
        first_dot(s@.skip(from as int)) == (if r < s.len() { Some((r - from) as nat) } else { None::<nat> }),
{
    let mut i = from;
    while i < s.len() && s[i] != 46
        invariant
            from <= i <= s.len(),
            forall|j: int| from <= j < i ==> !is_dot(#[trigger] s@[j]),
        decreases s.len() - i,
    {
        i = i + 1;
    }
    proof {
        let t = s@.skip(from as int);
        assert forall|j: int| 0 <= j < i - from implies !is_dot(#[trigger] t[j]) by {
            assert(t[j] == s@[j + from]);
        }
        lemma_first_dot_at(t, (i - from) as int);
    }
    i
}

proof fn lemma_first_dot_at(s: Seq<u8>, i: int)
    requires
        0 <= i <= s.len(),
        forall|j: int| 0 <= j < i ==> !is_dot(#[trigger] s[j]),
        i < s.len() ==> is_dot(s[i]),
    ensures
        first_dot(s) == (if i < s.len() { Some(i as nat) } else { None::<nat> }),
    decreases i,
{
    if i > 0 {
        let t = s.drop_first();
        assert forall|j: int| 0 <= j < i - 1 implies !is_dot(#[trigger] t[j]) by {
            assert(t[j] == s[j + 1]);
        }
        lemma_first_dot_at(t, i - 1);
    }
}

fn sub_slice(s: &[u8], from: usize, to: usize) -> (r: Vec<u8>)
    requires
        from <= to <= s.len(),
    ensures
        r@ == s@.subrange(from as int, to as int),
{
    let mut r: Vec<u8> = Vec::new();
    let mut i = from;
    while i < to
        invariant
            from <= i <= to <= s.len(),
            r@ == s@.subrange(from as int, i as int),
        decreases to - i,
    {
        r.push(s[i]);
        i = i + 1;
    }
    r
}

/// Reads a version from the bytes of a string (see `version_of`).
pub fn parse_version_bytes(s: &[u8]) -> (r: Option<Version>)
    ensures
        r == version_of(s@),
{
    let n = s.len();
    let d0 = find_dot(s, 0);
    assert(s@.skip(0) =~= s@);
    let major = parse_number(sub_slice(s, 0, d0).as_slice());
    assert(s@.subrange(0, d0 as int) =~= first_part(s@));
    if d0 == n {
        return None;
    }
    let major = match major {
        Some(m) => m,
        None => return None,
    };
    let ghost rest = s@.skip(d0 + 1);
    assert(after_dot(s@) == Some(rest));
    let d1 = find_dot(s, d0 + 1);
    assert(s@.subrange(d0 + 1, d1 as int) =~= first_part(rest)) by {
        if d1 < n {
            assert(first_dot(rest) == Some((d1 - d0 - 1) as nat));
        }
    }
    let minor = match parse_number(sub_slice(s, d0 + 1, d1).as_slice()) {
        Some(m) => m,
        None => return None,
    };
    if d1 == n {
        assert(after_dot(rest) == None::<Seq<u8>>);
        return Some(Version { major, minor, patch: None });
    }
    let ghost tail = s@.skip(d1 + 1);
    assert(after_dot(rest) == Some(tail)) by {
        assert(rest.skip(d1 - d0) =~= tail);
    }
    let d2 = find_dot(s, d1 + 1);
    assert(s@.subrange(d1 + 1, d2 as int) =~= first_part(tail));
    let patch = parse_number(sub_slice(s, d1 + 1, d2).as_slice());
    Some(Version { major, minor, patch })
}

/// Reads a version from a string: "2.4", "1.6.1" and "2.4pre20211006_53e4794"
/// are all read, the last as 2.4.
pub fn parse_version(s: &str) -> (r: Option<Version>)
    ensures
        r == version_of(s.spec_bytes()),
{
    parse_version_bytes(s.as_bytes())
}

impl FromStr for Version {
    type Err = ();

    fn from_str(s: &str) -> Result<Version, ()> {
        match parse_version(s) {
            Some(v) => Ok(v),
            None => Err(()),
        }
    }
}

/// What a run knows of its target: the language version.
#[non_exhaustive]
pub struct SessionInfo {
    pub nix_version: Version,
}

impl SessionInfo {
    #[must_use]
    pub fn from_version(nix_version: Version) -> (r: SessionInfo)
        ensures
            r.nix_version == nix_version,
    {
        SessionInfo { nix_version }
    }

    #[must_use]
    pub fn version(&self) -> (r: &Version)
        ensures
            *r == self.nix_version,
    {
        &self.nix_version
    }
}

/// The version that a run targets when none is configured.
pub fn default_nix_version() -> (r: String)
    ensures
        r@ == "2.4"@,
{
    "2.4".to_string()
}

/// A rule gated from version `gate` applies to a session exactly when the
/// session's version is at least `gate`: with a gate of 2.5, not under 2.4.x,
/// and under 2.5.0 and 2.6.0.
pub proof fn law_version_gate(gate: Version, v: Version)
    requires
        gate.major == 2,
        gate.minor == 5,
        gate.patch is None,
    ensures
        v.major == 2 && v.minor == 4 ==> !version_at_least(v, gate),
        v.major == 2 && v.minor == 5 && patch_or_zero(v) == 0 ==> version_at_least(v, gate),
        v.major == 2 && v.minor == 6 && patch_or_zero(v) == 0 ==> version_at_least(v, gate),
{
}

} // verus!
