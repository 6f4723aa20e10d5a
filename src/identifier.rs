//! The identifiers of semantic versions: numeric (`0`, `12`) and alphanumeric (`rc`, `x-1`).
use vstd::prelude::*;
use crate::essential::{chars_of, string_of};
use crate::semver_error::{
    ParseError, ParseErrorReason, ParseInvalidChar, ParseInvalidPart,
    ParseNonAsciiAlphaNumString, ReasonView,
};

verus! {

pub open spec fn is_digit(c: char) -> bool {
    '0' <= c && c <= '9'
}

/// `<non-digit>`: an ASCII letter or a hyphen.
pub open spec fn is_non_digit(c: char) -> bool {
    ('a' <= c && c <= 'z') || ('A' <= c && c <= 'Z') || c == '-'
}

pub open spec fn is_identifier_char(c: char) -> bool {
    is_digit(c) || is_non_digit(c)
}

pub open spec fn all_digits(s: Seq<char>) -> bool {
    forall|i: int| 0 <= i < s.len() ==> is_digit(#[trigger] s[i])
}

pub open spec fn all_identifier_chars(s: Seq<char>) -> bool {
    forall|i: int| 0 <= i < s.len() ==> is_identifier_char(#[trigger] s[i])
}

pub open spec fn has_non_digit(s: Seq<char>) -> bool {
    exists|i: int| 0 <= i < s.len() && is_non_digit(#[trigger] s[i])
}

/// A numeric identifier: digits only, and in strict mode no leading zero unless it is `0`.
pub open spec fn numeric_identifier(s: Seq<char>, strict: bool) -> bool {
    &&& s.len() > 0
    &&& all_digits(s)
    &&& strict ==> (s[0] != '0' || s.len() == 1)
}

/// An alphanumeric identifier: identifier characters only, and in strict mode at least one
/// of them is not a digit.
pub open spec fn alphanumeric_identifier(s: Seq<char>, strict: bool) -> bool {
    &&& s.len() > 0
    &&& all_identifier_chars(s)
    &&& strict ==> has_non_digit(s)
}

/// The position of the first character of `s` that is not a digit.
pub open spec fn first_non_digit(s: Seq<char>) -> int {
    choose|i: int|
        0 <= i < s.len() && !is_digit(s[i]) && forall|j: int| 0 <= j < i ==> is_digit(s[j])
}

/// Why `s` is not a numeric identifier.
pub open spec fn numeric_fault(s: Seq<char>, strict: bool) -> ReasonView {
    if s.len() == 0 {
        ReasonView::InvalidPattern
    } else if !strict {
        ReasonView::NonAsciiAlphaNumString(s)
    } else if s[0] == '0' {
        ReasonView::LeadingZero
    } else {
        ReasonView::InvalidChar(s[first_non_digit(s)])
    }
}

/// Why `s` is not an alphanumeric identifier.
pub open spec fn alphanumeric_fault(s: Seq<char>, strict: bool) -> ReasonView {
    if strict {
        ReasonView::InvalidPattern
    } else {
        ReasonView::NonAsciiAlphaNumString(s)
    }
}

pub fn parse_is_non_digit(c: char) -> (r: bool)
    ensures
        r == is_non_digit(c),
{
    ('a' <= c && c <= 'z') || ('A' <= c && c <= 'Z') || c == '-'
}

pub fn parse_is_identifier_character(c: char) -> (r: bool)
    ensures
        r == is_identifier_char(c),
{
    ('0' <= c && c <= '9') || parse_is_non_digit(c)
}

/// The index of the first non-digit of `s`, or its length when it has none.
fn scan_digits(s: &[char]) -> (r: usize)
    ensures
        r <= s@.len(),
        forall|j: int| 0 <= j < r ==> is_digit(s@[j]),
        r < s@.len() ==> !is_digit(s@[r as int]),
{
    let mut i: usize = 0;
    while i < s.len()
        invariant
            i <= s@.len(),
            forall|j: int| 0 <= j < i ==> is_digit(s@[j]),
        decreases s@.len() - i,
    {
        if !('0' <= s[i] && s[i] <= '9') {
            return i;
        }
        i = i + 1;
    }
    i
}

/// Whether every character of `s` is an identifier character.
fn scan_identifier(s: &[char]) -> (r: bool)
    ensures
        r == all_identifier_chars(s@),
{
    let mut i: usize = 0;
    while i < s.len()
        invariant
            i <= s@.len(),
            forall|j: int| 0 <= j < i ==> is_identifier_char(s@[j]),
        decreases s@.len() - i,
    {
        if !parse_is_identifier_character(s[i]) {
            return false;
        }
        i = i + 1;
    }
    true
}

/// Whether `s` holds a character that is not a digit.
fn scan_non_digit(s: &[char]) -> (r: bool)
    ensures
        r == has_non_digit(s@),
{
    let mut i: usize = 0;
    while i < s.len()
        invariant
            i <= s@.len(),
            forall|j: int| 0 <= j < i ==> !is_non_digit(s@[j]),
        decreases s@.len() - i,
    {
        if parse_is_non_digit(s[i]) {
            return true;
        }
        i = i + 1;
    }
    false
}

pub fn is_numeric_identifier(s: &[char], strict: bool) -> (r: bool)
    ensures
        r == numeric_identifier(s@, strict),
{
    if s.len() == 0 {
        return false;
    }
    let k = scan_digits(s);
    if k < s.len() {
        return false;
    }
    !strict || s[0] != '0' || s.len() == 1
}

pub fn is_alphanumeric_identifier(s: &[char], strict: bool) -> (r: bool)
    ensures
        r == alphanumeric_identifier(s@, strict),
{
    s.len() > 0 && scan_identifier(s) && (!strict || scan_non_digit(s))
}

/// `None` when `s` is a numeric identifier, else why it is not.
pub fn numeric_fault_of(s: &[char], strict: bool) -> (r: Option<ParseErrorReason>)
    ensures
        r is None <==> numeric_identifier(s@, strict),
        r is Some ==> r->0@ == numeric_fault(s@, strict),
{
    if is_numeric_identifier(s, strict) {
        return None;
    }
    if s.len() == 0 {
        return Some(ParseErrorReason::InvalidPattern);
    }
    if !strict {
        return Some(ParseErrorReason::NonAsciiAlphaNumString(ParseNonAsciiAlphaNumString { pattern: string_of(s) }));
    }
    if s[0] == '0' {
        return Some(ParseErrorReason::NumberIdentifierShouldNotHaveLeadingZero);
    }
    let k = scan_digits(s);
    proof {
        let f = first_non_digit(s@);
        assert(0 <= k < s@.len() && !is_digit(s@[k as int])
            && forall|j: int| 0 <= j < k ==> is_digit(s@[j]));
        assert(0 <= f < s@.len() && !is_digit(s@[f]) && forall|j: int|
            0 <= j < f ==> is_digit(s@[j]));
        if f < k {
            assert(is_digit(s@[f]));
        }
        if k < f {
            assert(is_digit(s@[k as int]));
        }
    }
    Some(ParseErrorReason::InvalidChar(ParseInvalidChar::from(s[k])))
}

/// Checks a numeric identifier (`0`, `7`, `42`); lenient mode also takes leading zeros.
pub fn parse_numeric_identifier(pre: &str, strict: bool) -> (r: Result<&str, ParseError>)
    ensures
        r is Ok <==> numeric_identifier(pre@, strict),
        r is Ok ==> r->Ok_0@ == pre@,
        r is Err ==> r->Err_0@ == (
            ParseInvalidPart::NumericIdentifier,
            numeric_fault(pre@, strict),
        ),
{
    let cs = chars_of(pre);
    match numeric_fault_of(cs.as_slice(), strict) {
        None => Ok(pre),
        Some(reason) => Err(ParseError::from(ParseInvalidPart::NumericIdentifier, reason)),
    }
}

/// Checks an alphanumeric identifier (`rc`, `x-1`, `1a`). Strict mode asks for a character
/// other than a digit; lenient mode takes any run of identifier characters.
pub fn parse_alphanumeric_identifier(pre: &str, strict: bool) -> (r: Result<&str, ParseError>)
    ensures
        r is Ok <==> alphanumeric_identifier(pre@, strict),
        r is Ok ==> r->Ok_0@ == pre@,
        r is Err ==> r->Err_0@ == (
            ParseInvalidPart::AlphaNumericIdentifier,
            alphanumeric_fault(pre@, strict),
        ),
{
    let cs = chars_of(pre);
    if is_alphanumeric_identifier(cs.as_slice(), strict) {
        Ok(pre)
    } else if strict {
        Err(ParseError::from(ParseInvalidPart::AlphaNumericIdentifier, ParseErrorReason::InvalidPattern))
    } else {
        Err(
            ParseError::from(
                ParseInvalidPart::AlphaNumericIdentifier,
                ParseErrorReason::NonAsciiAlphaNumString(ParseNonAsciiAlphaNumString::from(pre)),
            ),
        )
    }
}

} // verus!
