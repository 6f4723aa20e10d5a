//! Semantic versions (`major.minor.patch[-pre-release][+build]`): reading, writing and
//! precedence.
use vstd::prelude::*;
use std::cmp::Ordering;
use crate::build_metadata::{build_text, Build};
use crate::compare::{cmp_nat, digits_value, ids_cmp};
use crate::dotted::{join_dot, split_dot};
use crate::essential::{chars_of, push_char, StringEssential};
use crate::identifier::{numeric_fault, numeric_fault_of, numeric_identifier};
use crate::prerelease::{pre_release_text, PreRelease};
use crate::scan::{digit_run, digits_from, find_char, find_from, value_of};
use crate::semver_error::{ParseError, ParseErrorReason, ParseInvalidPart, ReasonView};

verus! {

/// The value a [`Version`] stands for.
pub struct VersionView {
    pub major: u64,
    pub minor: u64,
    pub patch: u64,
    pub pre_release: Option<Seq<Seq<char>>>,
    pub build: Option<Seq<Seq<char>>>,
}

/// A semantic version: three numbers, optional pre-release identifiers and optional build
/// metadata. [`Version::equals`] (and `==`) compares all five parts, while
/// [`Version::compare`] (and `partial_cmp`) ranks by precedence, which leaves build metadata
/// out: two versions that differ only in build metadata rank equal yet are not equal.
#[derive(Debug, Clone)]
pub struct Version {
    pub major: u64,
    pub minor: u64,
    pub patch: u64,
    pub pre_release: Option<PreRelease>,
    pub build: Option<Build>,
}

pub open spec fn pre_view(p: Option<PreRelease>) -> Option<Seq<Seq<char>>> {
    match p {
        Some(x) => Some(x@),
        None => None,
    }
}

pub open spec fn build_view(b: Option<Build>) -> Option<Seq<Seq<char>>> {
    match b {
        Some(x) => Some(x@),
        None => None,
    }
}

impl View for Version {
    type V = VersionView;

    open spec fn view(&self) -> VersionView {
        VersionView {
            major: self.major,
            minor: self.minor,
            patch: self.patch,
            pre_release: pre_view(self.pre_release),
            build: build_view(self.build),
        }
    }
}

pub type Fault = (ParseInvalidPart, ReasonView);

pub open spec fn numbers_only(major: u64, minor: u64, patch: u64) -> VersionView {
    VersionView { major, minor, patch, pre_release: None, build: None }
}

/// The pieces of `<version core>`: major, minor and patch text and what follows the patch
/// digits; `None` when the two dots or the patch digits are missing.
pub open spec fn core_pieces(s: Seq<char>) -> Option<(Seq<char>, Seq<char>, Seq<char>, Seq<char>)> {
    let d1 = find_char(s, '.');
    let r1 = s.skip(d1 + 1);
    let d2 = find_char(r1, '.');
    let r2 = r1.skip(d2 + 1);
    let p = digit_run(r2);
    if d1 == 0 || d1 == s.len() || d2 == 0 || d2 == r1.len() || p == 0 {
        None
    } else {
        Some((s.take(d1), r1.take(d2), r2.take(p), r2.skip(p)))
    }
}

pub open spec fn fits(s: Seq<char>) -> bool {
    digits_value(s) <= u64::MAX
}

/// `<version core>` read from the head of `s`: the three numbers and the rest of the text.
pub open spec fn core_spec(s: Seq<char>, strict: bool) -> Result<(u64, u64, u64, Seq<char>), Fault> {
    match core_pieces(s) {
        None => Err((ParseInvalidPart::VersionNumber, ReasonView::InvalidPattern)),
        Some((a, b, c, rest)) => if !numeric_identifier(a, strict) {
            Err((ParseInvalidPart::VersionNumber, numeric_fault(a, strict)))
        } else if !numeric_identifier(b, strict) {
            Err((ParseInvalidPart::VersionNumber, numeric_fault(b, strict)))
        } else if !numeric_identifier(c, strict) {
            Err((ParseInvalidPart::VersionNumber, numeric_fault(c, strict)))
        } else if !fits(a) || !fits(b) || !fits(c) {
            Err((ParseInvalidPart::VersionNumber, ReasonView::InvalidPattern))
        } else {
            Ok((digits_value(a) as u64, digits_value(b) as u64, digits_value(c) as u64, rest))
        },
    }
}

/// What follows `<version core>` when something does: `-<pre-release>`, `+<build>` or both;
/// anything else, the empty text included, is an invalid pattern.
pub open spec fn tail_spec(r: Seq<char>, strict: bool) -> Result<
    (Option<Seq<Seq<char>>>, Option<Seq<Seq<char>>>),
    Fault,
> {
    if r.len() == 0 {
        Err((ParseInvalidPart::PrereleaseOrBuild, ReasonView::InvalidPattern))
    } else if r[0] == '-' {
        let q = find_char(r, '+');
        if q < r.len() {
            let pre = r.subrange(1, q);
            let b = r.skip(q + 1);
            if pre.len() == 0 || b.len() == 0 {
                Err((ParseInvalidPart::PrereleaseOrBuild, ReasonView::InvalidPattern))
            } else if !pre_release_text(pre, strict) {
                Err((ParseInvalidPart::PreRelease, ReasonView::InvalidPattern))
            } else if !build_text(b, strict) {
                Err((ParseInvalidPart::Build, ReasonView::InvalidPattern))
            } else {
                Ok((Some(split_dot(pre)), Some(split_dot(b))))
            }
        } else if !pre_release_text(r.skip(1), strict) {
            Err((ParseInvalidPart::PreRelease, ReasonView::InvalidPattern))
        } else {
            Ok((Some(split_dot(r.skip(1))), None))
        }
    } else if r[0] == '+' {
        if !build_text(r.skip(1), strict) {
            Err((ParseInvalidPart::Build, ReasonView::InvalidPattern))
        } else {
            Ok((None, Some(split_dot(r.skip(1)))))
        }
    } else {
        Err((ParseInvalidPart::PrereleaseOrBuild, ReasonView::InvalidPattern))
    }
}

/// The version that `s` spells, or the first fault found in it.
pub open spec fn parse_spec(s: Seq<char>, strict: bool) -> Result<VersionView, Fault> {
    match core_spec(s, strict) {
        Err(e) => Err(e),
        Ok((major, minor, patch, rest)) => if rest.len() == 0 {
            Ok(VersionView { major, minor, patch, pre_release: None, build: None })
        } else {
            match tail_spec(rest, strict) {
                Err(e) => Err(e),
                Ok((pre_release, build)) => Ok(
                    VersionView { major, minor, patch, pre_release, build },
                ),
            }
        },
    }
}

/// Decimal digit `d` as a character.
pub open spec fn digit_char(d: nat) -> char {
    seq!['0', '1', '2', '3', '4', '5', '6', '7', '8', '9'][d as int]
}

/// The decimal numeral of `n`, without leading zeros.
pub open spec fn decimal(n: nat) -> Seq<char>
    decreases n,
{
    if n < 10 {
        seq![digit_char(n)]
    } else {
        decimal(n / 10).push(digit_char(n % 10))
    }
}

/// `major.minor.patch`, then `-` and the pre-release identifiers, then `+` and the build
/// identifiers, each only when present.
pub open spec fn format_spec(v: VersionView) -> Seq<char> {
    let core = decimal(v.major as nat) + seq!['.'] + decimal(v.minor as nat) + seq!['.']
        + decimal(v.patch as nat);
    let with_pre = match v.pre_release {
        Some(p) => core + seq!['-'] + join_dot(p),
        None => core,
    };
    match v.build {
        Some(b) => with_pre + seq!['+'] + join_dot(b),
        None => with_pre,
    }
}

/// Precedence: major, minor and patch numbers, then the pre-release identifiers, a version
/// without them ranking above one with them. Build metadata takes no part.
pub open spec fn version_cmp(a: VersionView, b: VersionView) -> Ordering {
    if a.major != b.major {
        cmp_nat(a.major as nat, b.major as nat)
    } else if a.minor != b.minor {
        cmp_nat(a.minor as nat, b.minor as nat)
    } else if a.patch != b.patch {
        cmp_nat(a.patch as nat, b.patch as nat)
    } else {
        match (a.pre_release, b.pre_release) {
            (Some(x), Some(y)) => ids_cmp(x, y),
            (Some(_), None) => Ordering::Less,
            (None, Some(_)) => Ordering::Greater,
            (None, None) => Ordering::Equal,
        }
    }
}

pub open spec fn rest_view(r: Option<&str>) -> Seq<char> {
    match r {
        Some(s) => s@,
        None => Seq::empty(),
    }
}

fn char_of_digit(d: u64) -> (c: char)
    requires
        d < 10,
    ensures
        c == digit_char(d as nat),
{
    if d == 0 {
        '0'
    } else if d == 1 {
        '1'
    } else if d == 2 {
        '2'
    } else if d == 3 {
        '3'
    } else if d == 4 {
        '4'
    } else if d == 5 {
        '5'
    } else if d == 6 {
        '6'
    } else if d == 7 {
        '7'
    } else if d == 8 {
        '8'
    } else {
        '9'
    }
}

/// Appends the decimal numeral of `n`.
pub fn push_decimal(s: &mut String, n: u64)
    ensures
        final(s)@ == old(s)@ + decimal(n as nat),
    decreases n,
{
    if n >= 10 {
        push_decimal(s, n / 10);
    }
    push_char(s, char_of_digit(n % 10));
    assert(n >= 10 ==> decimal(n as nat) == decimal((n / 10) as nat).push(digit_char((n % 10) as nat)));
}

impl Version {
    /// Version `0.0.0`.
    pub fn zero() -> (r: Version)
        ensures
            r@ == numbers_only(0, 0, 0),
    {
        Version { major: 0, minor: 0, patch: 0, pre_release: None, build: None }
    }

    /// Version `major.minor.patch`, without pre-release or build identifiers.
    pub fn new(major: u64, minor: u64, patch: u64) -> (r: Version)
        ensures
            r@ == numbers_only(major, minor, patch),
    {
        Version { major, minor, patch, pre_release: None, build: None }
    }

    /// Reads `<version core>` from the head of `ver`: the three numbers and the text after
    /// the patch digits (`None` when nothing follows).
    pub fn parse_version_core(ver: &str, strict: bool) -> (r: Result<(u64, u64, u64, Option<&str>), ParseError>)
        ensures
            r is Ok <==> core_spec(ver@, strict) is Ok,
            r is Ok ==> {
                let (major, minor, patch, rest) = r->Ok_0;
                let want = core_spec(ver@, strict)->Ok_0;
                &&& major == want.0
                &&& minor == want.1
                &&& patch == want.2
                &&& rest_view(rest) == want.3
                &&& (rest is Some <==> want.3.len() > 0)
            },
            r is Err ==> r->Err_0@ == core_spec(ver@, strict)->Err_0,
    {
        let cs = chars_of(ver);
        let n = cs.len();
        let d1 = find_from(cs.as_slice(), 0, '.');
        proof {
            assert(cs@.skip(0) =~= cs@);
        }
        if d1 == 0 || d1 == n {
            return Err(ParseError::from(ParseInvalidPart::VersionNumber, ParseErrorReason::InvalidPattern));
        }
        let d2 = find_from(cs.as_slice(), d1 + 1, '.');
        let ghost r1 = cs@.skip(d1 + 1);
        if d2 == d1 + 1 || d2 == n {
            return Err(ParseError::from(ParseInvalidPart::VersionNumber, ParseErrorReason::InvalidPattern));
        }
        let e = digits_from(cs.as_slice(), d2 + 1);
        let ghost r2 = r1.skip(d2 - d1);
        assert(r2 =~= cs@.skip(d2 + 1));
        if e == d2 + 1 {
            return Err(ParseError::from(ParseInvalidPart::VersionNumber, ParseErrorReason::InvalidPattern));
        }
        let major = &cs.as_slice()[0..d1];
        let minor = &cs.as_slice()[d1 + 1..d2];
        let patch = &cs.as_slice()[d2 + 1..e];
        assert(major@ =~= cs@.take(d1 as int));
        assert(minor@ =~= r1.take(d2 - d1 - 1));
        assert(patch@ =~= r2.take(e - d2 - 1));
        assert(r2.skip(e - d2 - 1) =~= cs@.skip(e as int));
        if let Some(reason) = numeric_fault_of(major, strict) {
            return Err(ParseError::from(ParseInvalidPart::VersionNumber, reason));
        }
        if let Some(reason) = numeric_fault_of(minor, strict) {
            return Err(ParseError::from(ParseInvalidPart::VersionNumber, reason));
        }
        if let Some(reason) = numeric_fault_of(patch, strict) {
            return Err(ParseError::from(ParseInvalidPart::VersionNumber, reason));
        }
        match (value_of(major), value_of(minor), value_of(patch)) {
            (Some(a), Some(b), Some(c)) => {
                if e < n {
                    let rest = ver.substring_to_end(e);
                    assert(ver@.subrange(e as int, ver@.len() as int) =~= cs@.skip(e as int));
                    Ok((a, b, c, rest))
                } else {
                    assert(cs@.skip(e as int) =~= Seq::<char>::empty());
                    Ok((a, b, c, None))
                }
            },
            _ => Err(ParseError::from(ParseInvalidPart::VersionNumber, ParseErrorReason::InvalidPattern)),
        }
    }
}


impl Version {
    fn parse_pre_release_and_build(ver_reminder: &str, strict: bool) -> (r: Result<
        (Option<PreRelease>, Option<Build>),
        ParseError,
    >)
        ensures
            r is Ok <==> tail_spec(ver_reminder@, strict) is Ok,
            r is Ok ==> (pre_view(r->Ok_0.0), build_view(r->Ok_0.1)) == tail_spec(
                ver_reminder@,
                strict,
            )->Ok_0,
            r is Err ==> r->Err_0@ == tail_spec(ver_reminder@, strict)->Err_0,
    {
        let cs = chars_of(ver_reminder);
        let n = cs.len();
        if n == 0 {
            return Err(ParseError::from(ParseInvalidPart::PrereleaseOrBuild, ParseErrorReason::InvalidPattern));
        }
        let q = find_from(cs.as_slice(), 0, '+');
        proof {
            assert(cs@.skip(0) =~= cs@);
            assert(split_dot(Seq::<char>::empty())[0] == Seq::<char>::empty());
            crate::scan::lemma_find_char_bounds(cs@.drop_first(), '+');
        }
        if cs[0] == '-' {
            if q < n {
                match (ver_reminder.substring(1, q), ver_reminder.substring_to_end(q + 1)) {
                    (Some(p), Some(b)) => {
                        let pre = match PreRelease::parse(p, strict) {
                            Ok(x) => x,
                            Err(e) => {
                                return Err(e);
                            },
                        };
                        let build = match Build::parse(b, strict) {
                            Ok(x) => x,
                            Err(e) => {
                                return Err(e);
                            },
                        };
                        Ok((Some(pre), Some(build)))
                    },
                    _ => Err(ParseError::from(ParseInvalidPart::PrereleaseOrBuild, ParseErrorReason::InvalidPattern)),
                }
            } else {
                match ver_reminder.substring_to_end(1) {
                    Some(p) => match PreRelease::parse(p, strict) {
                        Ok(pre) => Ok((Some(pre), None)),
                        Err(e) => Err(e),
                    },
                    None => {
                        assert(ver_reminder@.skip(1) =~= Seq::<char>::empty());
                        assert(!crate::prerelease::pre_release_identifier(
                            split_dot(ver_reminder@.skip(1))[0],
                            strict,
                        ));
                        Err(ParseError::from(ParseInvalidPart::PreRelease, ParseErrorReason::InvalidPattern))
                    },
                }
            }
        } else if cs[0] == '+' {
            match ver_reminder.substring_to_end(1) {
                Some(b) => match Build::parse(b, strict) {
                    Ok(build) => Ok((None, Some(build))),
                    Err(e) => Err(e),
                },
                None => {
                    assert(ver_reminder@.skip(1) =~= Seq::<char>::empty());
                    assert(!crate::build_metadata::build_identifier(
                        split_dot(ver_reminder@.skip(1))[0],
                        strict,
                    ));
                    Err(ParseError::from(ParseInvalidPart::Build, ParseErrorReason::InvalidPattern))
                },
            }
        } else {
            Err(ParseError::from(ParseInvalidPart::PrereleaseOrBuild, ParseErrorReason::InvalidPattern))
        }
    }

    /// Reads a semantic version. Strict mode rejects leading zeros in numeric identifiers and
    /// asks alphanumeric identifiers for a character other than a digit.
    pub fn parse(ver: &str, strict: bool) -> (r: Result<Version, ParseError>)
        ensures
            r is Ok <==> parse_spec(ver@, strict) is Ok,
            r is Ok ==> r->Ok_0@ == parse_spec(ver@, strict)->Ok_0,
            r is Err ==> r->Err_0@ == parse_spec(ver@, strict)->Err_0,
    {
        match Self::parse_version_core(ver, strict) {
            Err(e) => Err(e),
            Ok((major, minor, patch, rest)) => match rest {
                None => Ok(Version { major, minor, patch, pre_release: None, build: None }),
                Some(r) => match Self::parse_pre_release_and_build(r, strict) {
                    Ok((pre_release, build)) => Ok(Version { major, minor, patch, pre_release, build }),
                    Err(e) => Err(e),
                },
            },
        }
    }

    /// Reads a version in lenient mode; on any failure, gives `major.minor.patch`.
    pub fn parse_or(ver: &str, major: u64, minor: u64, patch: u64) -> (r: Version)
        ensures
            r@ == match parse_spec(ver@, false) {
                Ok(v) => v,
                Err(_) => numbers_only(major, minor, patch),
            },
    {
        match Self::parse(ver, false) {
            Ok(v) => v,
            Err(_) => Self::new(major, minor, patch),
        }
    }

    /// Reads a version in lenient mode; on any failure, gives `0.0.0`.
    pub fn parse_or_zero(ver: &str) -> (r: Version)
        ensures
            r@ == match parse_spec(ver@, false) {
                Ok(v) => v,
                Err(_) => numbers_only(0, 0, 0),
            },
    {
        Self::parse_or(ver, 0, 0, 0)
    }

    /// The canonical text: `major.minor.patch[-pre-release][+build]`.
    pub fn format_canonical(&self) -> (r: String)
        ensures
            r@ == format_spec(self@),
    {
        let mut s = String::new();
        push_decimal(&mut s, self.major);
        push_char(&mut s, '.');
        push_decimal(&mut s, self.minor);
        push_char(&mut s, '.');
        push_decimal(&mut s, self.patch);
        if let Some(p) = &self.pre_release {
            push_char(&mut s, '-');
            let t = p.to_string();
            s.append(t.as_str());
        }
        if let Some(b) = &self.build {
            push_char(&mut s, '+');
            let t = b.to_string();
            s.append(t.as_str());
        }
        s
    }

    /// Precedence of `self` against `other`; build metadata takes no part.
    pub fn compare(&self, other: &Version) -> (r: Ordering)
        ensures
            r == version_cmp(self@, other@),
    {
        if self.major != other.major {
            if self.major < other.major { Ordering::Less } else { Ordering::Greater }
        } else if self.minor != other.minor {
            if self.minor < other.minor { Ordering::Less } else { Ordering::Greater }
        } else if self.patch != other.patch {
            if self.patch < other.patch { Ordering::Less } else { Ordering::Greater }
        } else {
            match (&self.pre_release, &other.pre_release) {
                (Some(x), Some(y)) => x.compare(y),
                (Some(_), None) => Ordering::Less,
                (None, Some(_)) => Ordering::Greater,
                (None, None) => Ordering::Equal,
            }
        }
    }

    /// Whether all five parts are the same, build metadata included.
    pub fn equals(&self, other: &Version) -> (r: bool)
        ensures
            r == (self@ == other@),
    {
        if self.major != other.major || self.minor != other.minor || self.patch != other.patch {
            return false;
        }
        let same_pre = match (&self.pre_release, &other.pre_release) {
            (Some(x), Some(y)) => x.equals(y),
            (None, None) => true,
            _ => false,
        };
        let same_build = match (&self.build, &other.build) {
            (Some(x), Some(y)) => x.equals(y),
            (None, None) => true,
            _ => false,
        };
        same_pre && same_build
    }
}

impl PartialEq for Version {
    fn eq(&self, other: &Version) -> (r: bool) {
        self.equals(other)
    }
}

impl vstd::std_specs::cmp::PartialEqSpecImpl for Version {
    open spec fn obeys_eq_spec() -> bool {
        true
    }

    open spec fn eq_spec(&self, other: &Version) -> bool {
        self@ == other@
    }
}

impl PartialOrd for Version {
    fn partial_cmp(&self, other: &Version) -> (r: Option<Ordering>) {
        Some(self.compare(other))
    }
}

impl vstd::std_specs::cmp::PartialOrdSpecImpl for Version {
    open spec fn obeys_partial_cmp_spec() -> bool {
        true
    }

    open spec fn partial_cmp_spec(&self, other: &Version) -> Option<Ordering> {
        Some(version_cmp(self@, other@))
    }
}

/// The version a package declares, read leniently; `0.0.0` when absent or unreadable.
pub fn package_version(v: Option<&str>) -> (r: Version)
    ensures
        r@ == match v {
            None => numbers_only(0, 0, 0),
            Some(t) => match parse_spec(t@, false) {
                Ok(x) => x,
                Err(_) => numbers_only(0, 0, 0),
            },
        },
{
    match v {
        None => Version::zero(),
        Some(t) => Version::parse_or_zero(t),
    }
}

} // verus!
