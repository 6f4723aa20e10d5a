//! What went wrong while reading a semantic version, and where.
use vstd::prelude::*;

verus! {

/// A character that the grammar does not allow at that place.
#[derive(Debug)]
pub struct ParseInvalidChar {
    pub invalid: char,
}

impl ParseInvalidChar {
    pub fn from(invalid_char: char) -> (r: ParseInvalidChar)
        ensures
            r.invalid == invalid_char,
    {
        ParseInvalidChar { invalid: invalid_char }
    }
}

/// Text that holds something other than ASCII letters, digits and hyphens.
#[derive(Debug)]
pub struct ParseNonAsciiAlphaNumString {
    pub pattern: String,
}

impl ParseNonAsciiAlphaNumString {
    pub fn from(pattern: &str) -> (r: ParseNonAsciiAlphaNumString)
        ensures
            r.pattern@ == pattern@,
    {
        ParseNonAsciiAlphaNumString { pattern: pattern.to_owned() }
    }
}

/// The part of the grammar in which an error was found.
#[derive(Debug, Clone, Copy, PartialEq, Eq, Structural)]
pub enum ParseInvalidPart {
    Major,
    Minor,
    Patch,
    VersionNumber,
    PreRelease,
    PrereleaseOrBuild,
    Build,
    NumericIdentifier,
    AlphaNumericIdentifier,
    Other,
}

/// Why a part was rejected.
#[derive(Debug)]
pub enum ParseErrorReason {
    InvalidChar(ParseInvalidChar),
    InvalidPattern,
    NonAsciiAlphaNumString(ParseNonAsciiAlphaNumString),
    NumberIdentifierShouldNotHaveLeadingZero,
}

/// The value a [`ParseErrorReason`] stands for.
pub enum ReasonView {
    InvalidChar(char),
    InvalidPattern,
    NonAsciiAlphaNumString(Seq<char>),
    LeadingZero,
}

impl View for ParseErrorReason {
    type V = ReasonView;

    open spec fn view(&self) -> ReasonView {
        match self {
            ParseErrorReason::InvalidChar(c) => ReasonView::InvalidChar(c.invalid),
            ParseErrorReason::InvalidPattern => ReasonView::InvalidPattern,
            ParseErrorReason::NonAsciiAlphaNumString(n) => ReasonView::NonAsciiAlphaNumString(
                n.pattern@,
            ),
            ParseErrorReason::NumberIdentifierShouldNotHaveLeadingZero => ReasonView::LeadingZero,
        }
    }
}

/// A failure to read a semantic version: the offending part and the reason.
#[derive(Debug)]
pub struct ParseError {
    pub part: ParseInvalidPart,
    pub reason: ParseErrorReason,
}

impl View for ParseError {
    type V = (ParseInvalidPart, ReasonView);

    open spec fn view(&self) -> (ParseInvalidPart, ReasonView) {
        (self.part, self.reason@)
    }
}

pub open spec fn reason_message(r: ReasonView) -> Seq<char> {
    match r {
        ReasonView::InvalidChar(c) => "invalid character '"@ + seq![c] + "' found"@,
        ReasonView::InvalidPattern => "invalid pattern"@,
        ReasonView::NonAsciiAlphaNumString(p) => "non ASCII alpha-numeric character '"@ + p
            + "' found"@,
        ReasonView::LeadingZero => "number identifier should not have leading zero"@,
    }
}

pub open spec fn part_name(p: ParseInvalidPart) -> Seq<char> {
    match p {
        ParseInvalidPart::Major => "Major"@,
        ParseInvalidPart::Minor => "Minor"@,
        ParseInvalidPart::Patch => "Patch"@,
        ParseInvalidPart::VersionNumber => "VersionNumber"@,
        ParseInvalidPart::PreRelease => "PreRelease"@,
        ParseInvalidPart::PrereleaseOrBuild => "PrereleaseOrBuild"@,
        ParseInvalidPart::Build => "Build"@,
        ParseInvalidPart::NumericIdentifier => "NumericIdentifier"@,
        ParseInvalidPart::AlphaNumericIdentifier => "AlphaNumericIdentifier"@,
        ParseInvalidPart::Other => "Other"@,
    }
}

/// `<reason> in part <part>`, or the reason alone for [`ParseInvalidPart::Other`].
pub open spec fn error_message(e: (ParseInvalidPart, ReasonView)) -> Seq<char> {
    if e.0 == ParseInvalidPart::Other {
        reason_message(e.1)
    } else {
        reason_message(e.1) + " in part "@ + part_name(e.0)
    }
}

impl ParseInvalidPart {
    /// The name of the part.
    pub fn name(&self) -> (r: &'static str)
        ensures
            r@ == part_name(*self),
    {
        match self {
            ParseInvalidPart::Major => "Major",
            ParseInvalidPart::Minor => "Minor",
            ParseInvalidPart::Patch => "Patch",
            ParseInvalidPart::VersionNumber => "VersionNumber",
            ParseInvalidPart::PreRelease => "PreRelease",
            ParseInvalidPart::PrereleaseOrBuild => "PrereleaseOrBuild",
            ParseInvalidPart::Build => "Build",
            ParseInvalidPart::NumericIdentifier => "NumericIdentifier",
            ParseInvalidPart::AlphaNumericIdentifier => "AlphaNumericIdentifier",
            ParseInvalidPart::Other => "Other",
        }
    }
}

impl ParseErrorReason {
    /// The reason in words.
    pub fn to_string(&self) -> (r: String)
        ensures
            r@ == reason_message(self@),
    {
        match self {
            ParseErrorReason::InvalidChar(c) => {
                let mut s = String::from_str("invalid character '");
                crate::essential::push_char(&mut s, c.invalid);
                s.append("' found");
                s
            },
            ParseErrorReason::InvalidPattern => String::from_str("invalid pattern"),
            ParseErrorReason::NonAsciiAlphaNumString(n) => {
                let mut s = String::from_str("non ASCII alpha-numeric character '");
                s.append(n.pattern.as_str());
                s.append("' found");
                s
            },
            ParseErrorReason::NumberIdentifierShouldNotHaveLeadingZero => String::from_str(
                "number identifier should not have leading zero",
            ),
        }
    }
}

impl ParseError {
    pub fn from(part: ParseInvalidPart, reason: ParseErrorReason) -> (r: ParseError)
        ensures
            r.part == part,
            r.reason == reason,
    {
        ParseError { part, reason }
    }

    /// The error in words: `<reason> in part <part>`, or the reason alone for
    /// [`ParseInvalidPart::Other`].
    pub fn to_string(&self) -> (r: String)
        ensures
            r@ == error_message(self@),
    {
        let mut s = self.reason.to_string();
        if self.part != ParseInvalidPart::Other {
            s.append(" in part ");
            s.append(self.part.name());
        }
        s
    }
}

} // verus!
