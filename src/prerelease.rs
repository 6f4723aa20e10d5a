//! The pre-release part of a semantic version (`alpha.1` in `1.0.0-alpha.1`).
use vstd::prelude::*;
use std::cmp::Ordering;
use crate::compare::{cmp_identifier, ids_cmp};
use crate::dotted::{join_dot, join_strings, part_views, split_chars, split_dot};
use crate::essential::{chars_of, string_of};
use crate::identifier::{
    alphanumeric_identifier, is_alphanumeric_identifier, is_numeric_identifier,
    numeric_identifier,
};
use crate::semver_error::{ParseError, ParseErrorReason, ParseInvalidPart};

verus! {

/// `<pre-release identifier>`: alphanumeric or numeric.
pub open spec fn pre_release_identifier(s: Seq<char>, strict: bool) -> bool {
    alphanumeric_identifier(s, strict) || numeric_identifier(s, strict)
}

/// Every dot-separated part of `s` is a pre-release identifier.
pub open spec fn pre_release_text(s: Seq<char>, strict: bool) -> bool {
    forall|i: int|
        0 <= i < split_dot(s).len() ==> pre_release_identifier(#[trigger] split_dot(s)[i], strict)
}

/// Dot-separated pre-release identifiers (`alpha`, `alpha.beta`, `beta.2`).
#[derive(Debug, Clone)]
pub struct PreRelease {
    pre_release: Vec<String>,
}

pub open spec fn string_views(v: Seq<String>) -> Seq<Seq<char>> {
    v.map_values(|s: String| s@)
}

impl View for PreRelease {
    type V = Seq<Seq<char>>;

    closed spec fn view(&self) -> Seq<Seq<char>> {
        string_views(self.pre_release@)
    }
}

pub fn is_pre_release_identifier(s: &[char], strict: bool) -> (r: bool)
    ensures
        r == pre_release_identifier(s@, strict),
{
    is_alphanumeric_identifier(s, strict) || is_numeric_identifier(s, strict)
}

/// The parts as strings.
pub(crate) fn strings_of_parts(parts: &Vec<Vec<char>>) -> (r: Vec<String>)
    ensures
        string_views(r@) == part_views(parts@),
{
    let mut out: Vec<String> = Vec::new();
    let mut i: usize = 0;
    while i < parts.len()
        invariant
            i <= parts@.len(),
            string_views(out@) == part_views(parts@).take(i as int),
        decreases parts@.len() - i,
    {
        let ghost before = out@;
        let s = string_of(parts[i].as_slice());
        out.push(s);
        assert(string_views(out@) =~= string_views(before).push(s@));
        assert(part_views(parts@).take(i + 1) =~= part_views(parts@).take(i as int).push(
            parts@[i as int]@,
        ));
        i = i + 1;
    }
    assert(part_views(parts@).take(parts@.len() as int) =~= part_views(parts@));
    out
}

impl PreRelease {
    /// Reads dot-separated pre-release identifiers.
    pub fn parse(pre: &str, strict: bool) -> (r: Result<PreRelease, ParseError>)
        ensures
            r is Ok <==> pre_release_text(pre@, strict),
            r is Ok ==> r->Ok_0@ == split_dot(pre@),
            r is Err ==> r->Err_0@ == (
                ParseInvalidPart::PreRelease,
                crate::semver_error::ReasonView::InvalidPattern,
            ),
    {
        match Self::parse_pre_release(pre, strict) {
            Ok(p) => {
                let r = PreRelease { pre_release: p };
                assert(r@ == string_views(r.pre_release@));
                Ok(r)
            },
            Err(e) => Err(e),
        }
    }

    /// Checks one pre-release identifier.
    pub fn parse_pre_release_identifier(pre: &str, strict: bool) -> (r: Result<&str, ParseError>)
        ensures
            r is Ok <==> pre_release_identifier(pre@, strict),
            r is Ok ==> r->Ok_0@ == pre@,
            r is Err ==> r->Err_0@ == (
                ParseInvalidPart::PreRelease,
                crate::semver_error::ReasonView::InvalidPattern,
            ),
    {
        let cs = chars_of(pre);
        if is_pre_release_identifier(cs.as_slice(), strict) {
            Ok(pre)
        } else {
            Err(ParseError::from(ParseInvalidPart::PreRelease, ParseErrorReason::InvalidPattern))
        }
    }

    fn parse_pre_release(pre: &str, strict: bool) -> (r: Result<Vec<String>, ParseError>)
        ensures
            r is Ok <==> pre_release_text(pre@, strict),
            r is Ok ==> string_views(r->Ok_0@) == split_dot(pre@),
            r is Err ==> r->Err_0@ == (
                ParseInvalidPart::PreRelease,
                crate::semver_error::ReasonView::InvalidPattern,
            ),
    {
        let cs = chars_of(pre);
        let parts = split_chars(cs.as_slice());
        let mut i: usize = 0;
        while i < parts.len()
            invariant
                i <= parts@.len(),
                part_views(parts@) == split_dot(pre@),
                forall|j: int| 0 <= j < i ==> pre_release_identifier(#[trigger] split_dot(pre@)[j], strict),
            decreases parts@.len() - i,
        {
            assert(part_views(parts@)[i as int] == parts@[i as int]@);
            if !is_pre_release_identifier(parts[i].as_slice(), strict) {
                return Err(ParseError::from(ParseInvalidPart::PreRelease, ParseErrorReason::InvalidPattern));
            }
            i = i + 1;
        }
        Ok(strings_of_parts(&parts))
    }

    /// The identifiers joined with `.`.
    pub fn to_string(&self) -> (r: String)
        ensures
            r@ == join_dot(self@),
    {
        join_strings(&self.pre_release)
    }

    /// Precedence: the first differing identifier decides, else the shorter list is lower.
    pub fn compare(&self, other: &PreRelease) -> (r: Ordering)
        ensures
            r == ids_cmp(self@, other@),
    {
        compare_lists(&self.pre_release, &other.pre_release)
    }

    /// Whether both hold the same identifiers.
    pub fn equals(&self, other: &PreRelease) -> (r: bool)
        ensures
            r == (self@ == other@),
    {
        equal_lists(&self.pre_release, &other.pre_release)
    }
}

/// Whether two lists of strings hold the same texts.
pub(crate) fn equal_lists(a: &Vec<String>, b: &Vec<String>) -> (r: bool)
    ensures
        r == (string_views(a@) == string_views(b@)),
{
    if a.len() != b.len() {
        assert(string_views(a@).len() != string_views(b@).len());
        return false;
    }
    let mut i: usize = 0;
    while i < a.len()
        invariant
            i <= a@.len(),
            a@.len() == b@.len(),
            forall|j: int| 0 <= j < i ==> a@[j]@ == b@[j]@,
        decreases a@.len() - i,
    {
        if !a[i].eq(&b[i]) {
            assert(string_views(a@)[i as int] != string_views(b@)[i as int]);
            return false;
        }
        i = i + 1;
    }
    assert(string_views(a@) =~= string_views(b@));
    true
}

fn compare_lists(a: &Vec<String>, b: &Vec<String>) -> (r: Ordering)
    ensures
        r == ids_cmp(string_views(a@), string_views(b@)),
{
    let ghost va = string_views(a@);
    let ghost vb = string_views(b@);
    let mut i: usize = 0;
    assert(va.skip(0) =~= va);
    assert(vb.skip(0) =~= vb);
    while i < a.len() && i < b.len()
        invariant
            i <= a@.len(),
            i <= b@.len(),
            va == string_views(a@),
            vb == string_views(b@),
            ids_cmp(va, vb) == ids_cmp(va.skip(i as int), vb.skip(i as int)),
        decreases a@.len() - i,
    {
        let ca = chars_of(a[i].as_str());
        let cb = chars_of(b[i].as_str());
        assert(va.skip(i as int)[0] == va[i as int]);
        assert(vb.skip(i as int)[0] == vb[i as int]);
        let c = cmp_identifier(ca.as_slice(), cb.as_slice());
        match c {
            Ordering::Equal => {},
            _ => {
                return c;
            },
        }
        assert(va.skip(i as int).drop_first() =~= va.skip(i + 1));
        assert(vb.skip(i as int).drop_first() =~= vb.skip(i + 1));
        i = i + 1;
    }
    if a.len() == b.len() {
        Ordering::Equal
    } else if a.len() == i {
        Ordering::Less
    } else {
        Ordering::Greater
    }
}

impl PartialEq for PreRelease {
    fn eq(&self, other: &PreRelease) -> (r: bool) {
        self.equals(other)
    }
}

impl vstd::std_specs::cmp::PartialEqSpecImpl for PreRelease {
    open spec fn obeys_eq_spec() -> bool {
        true
    }

    open spec fn eq_spec(&self, other: &PreRelease) -> bool {
        self@ == other@
    }
}

impl PartialOrd for PreRelease {
    fn partial_cmp(&self, other: &PreRelease) -> (r: Option<Ordering>) {
        Some(self.compare(other))
    }
}

impl vstd::std_specs::cmp::PartialOrdSpecImpl for PreRelease {
    open spec fn obeys_partial_cmp_spec() -> bool {
        true
    }

    open spec fn partial_cmp_spec(&self, other: &PreRelease) -> Option<Ordering> {
        Some(ids_cmp(self@, other@))
    }
}

} // verus!
