//! Build metadata of a semantic version (`exp.sha.5114f85` in `1.0.0+exp.sha.5114f85`).
use vstd::prelude::*;
use crate::compare::is_numeric;
use crate::dotted::{join_dot, join_strings, part_views, split_chars, split_dot};
use crate::essential::chars_of;
use crate::identifier::{alphanumeric_identifier, is_alphanumeric_identifier};
use crate::prerelease::{equal_lists, string_views, strings_of_parts};
use crate::semver_error::{ParseError, ParseErrorReason, ParseInvalidPart, ReasonView};

verus! {

/// `<build identifier>`: alphanumeric, or digits (leading zeros allowed).
pub open spec fn build_identifier(s: Seq<char>, strict: bool) -> bool {
    alphanumeric_identifier(s, strict) || is_numeric(s)
}

/// Every dot-separated part of `s` is a build identifier.
pub open spec fn build_text(s: Seq<char>, strict: bool) -> bool {
    forall|i: int|
        0 <= i < split_dot(s).len() ==> build_identifier(#[trigger] split_dot(s)[i], strict)
}

/// Dot-separated build identifiers. They take no part in precedence.
#[derive(Debug, Clone)]
pub struct Build {
    build: Vec<String>,
}

impl View for Build {
    type V = Seq<Seq<char>>;

    closed spec fn view(&self) -> Seq<Seq<char>> {
        string_views(self.build@)
    }
}

fn is_digits(s: &[char]) -> (r: bool)
    ensures
        r == is_numeric(s@),
{
    if s.len() == 0 {
        return false;
    }
    let mut i: usize = 0;
    while i < s.len()
        invariant
            i <= s@.len(),
            forall|j: int| 0 <= j < i ==> crate::identifier::is_digit(s@[j]),
        decreases s@.len() - i,
    {
        if !('0' <= s[i] && s[i] <= '9') {
            return false;
        }
        i = i + 1;
    }
    true
}

pub fn is_build_identifier(s: &[char], strict: bool) -> (r: bool)
    ensures
        r == build_identifier(s@, strict),
{
    is_alphanumeric_identifier(s, strict) || is_digits(s)
}

impl Build {
    /// Reads dot-separated build identifiers.
    pub fn parse(build: &str, strict: bool) -> (r: Result<Build, ParseError>)
        ensures
            r is Ok <==> build_text(build@, strict),
            r is Ok ==> r->Ok_0@ == split_dot(build@),
            r is Err ==> r->Err_0@ == (ParseInvalidPart::Build, ReasonView::InvalidPattern),
    {
        let b = Self::parse_build(build, strict)?;
        let r = Build { build: b };
        assert(r@ == string_views(r.build@));
        Ok(r)
    }

    /// Checks one build identifier.
    pub fn parse_build_identifier(build: &str, strict: bool) -> (r: Result<&str, ParseError>)
        ensures
            r is Ok <==> build_identifier(build@, strict),
            r is Ok ==> r->Ok_0@ == build@,
            r is Err ==> r->Err_0@ == (ParseInvalidPart::Build, ReasonView::InvalidPattern),
    {
        let cs = chars_of(build);
        if is_build_identifier(cs.as_slice(), strict) {
            Ok(build)
        } else {
            Err(ParseError::from(ParseInvalidPart::Build, ParseErrorReason::InvalidPattern))
        }
    }

    fn parse_build(build: &str, strict: bool) -> (r: Result<Vec<String>, ParseError>)
        ensures
            r is Ok <==> build_text(build@, strict),
            r is Ok ==> string_views(r->Ok_0@) == split_dot(build@),
            r is Err ==> r->Err_0@ == (ParseInvalidPart::Build, ReasonView::InvalidPattern),
    {
        let cs = chars_of(build);
        let parts = split_chars(cs.as_slice());
        let mut i: usize = 0;
        while i < parts.len()
            invariant
                i <= parts@.len(),
                part_views(parts@) == split_dot(build@),
                forall|j: int| 0 <= j < i ==> build_identifier(#[trigger] split_dot(build@)[j], strict),
            decreases parts@.len() - i,
        {
            assert(part_views(parts@)[i as int] == parts@[i as int]@);
            if !is_build_identifier(parts[i].as_slice(), strict) {
                return Err(ParseError::from(ParseInvalidPart::Build, ParseErrorReason::InvalidPattern));
            }
            i = i + 1;
        }
        Ok(strings_of_parts(&parts))
    }

    /// The identifiers joined with `.`.
    pub fn to_string(&self) -> (r: String)
        ensures
            r@ == join_dot(self@),
    {
        join_strings(&self.build)
    }

    /// Whether both hold the same identifiers.
    pub fn equals(&self, other: &Build) -> (r: bool)
        ensures
            r == (self@ == other@),
    {
        equal_lists(&self.build, &other.build)
    }
}

impl PartialEq for Build {
    fn eq(&self, other: &Build) -> (r: bool) {
        self.equals(other)
    }
}

impl vstd::std_specs::cmp::PartialEqSpecImpl for Build {
    open spec fn obeys_eq_spec() -> bool {
        true
    }

    open spec fn eq_spec(&self, other: &Build) -> bool {
        self@ == other@
    }
}

} // verus!
