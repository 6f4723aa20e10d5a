//! Regular-expression matching over Unicode text, backed by the `regex` crate. Matches and
//! capture groups are handed out as plain values: byte offsets and the matched text.
use vstd::prelude::*;
use vstd::string::StringSliceAdditionalSpecFns;
use vstd::utf8::encode_utf8;
use std::ops::Range;
use ::regex::NoExpand;
use ::regex::Regex as CompiledRegex;
use ::regex::Error as RegexError;

verus! {

#[verifier::external_type_specification]
#[verifier::external_body]
pub struct ExCompiledRegex(CompiledRegex);

#[verifier::external_type_specification]
#[verifier::external_body]
pub struct ExRegexError(RegexError);

/// A match as plain values: start and end byte offsets in the searched text, and the text
/// matched.
pub type Found = (usize, usize, Seq<char>);

/// The match lies in `text`: its offsets are in order and within the UTF-8 bytes of `text`,
/// and its text is what those bytes spell.
pub open spec fn found_in(f: Found, text: Seq<char>) -> bool {
    &&& f.0 <= f.1 <= encode_utf8(text).len()
    &&& encode_utf8(f.2) == encode_utf8(text).subrange(f.0 as int, f.1 as int)
}

/// Every group that took part lies in `text`.
pub open spec fn groups_in(g: Seq<Option<Found>>, text: Seq<char>) -> bool {
    forall|i: int| 0 <= i < g.len() ==> (#[trigger] g[i] matches Some(f) ==> found_in(f, text))
}

pub open spec fn found_view(t: (usize, usize, String)) -> Found {
    (t.0, t.1, t.2@)
}

pub open spec fn opt_found_view(o: Option<(usize, usize, String)>) -> Option<Found> {
    match o {
        Some(t) => Some(found_view(t)),
        None => None,
    }
}

pub open spec fn founds_view(v: Seq<(usize, usize, String)>) -> Seq<Found> {
    v.map_values(|t: (usize, usize, String)| found_view(t))
}

pub open spec fn groups_view(v: Seq<Option<(usize, usize, String)>>) -> Seq<Option<Found>> {
    v.map_values(|o: Option<(usize, usize, String)>| opt_found_view(o))
}

pub open spec fn names_view(v: Seq<Option<String>>) -> Seq<Option<Seq<char>>> {
    v.map_values(
        |o: Option<String>|
            match o {
                Some(s) => Some(s@),
                None => None,
            },
    )
}

pub open spec fn texts_view(v: Seq<String>) -> Seq<Seq<char>> {
    v.map_values(|s: String| s@)
}

/// Whether `regex::Regex::new` accepts the pattern.
pub uninterp spec fn regex_compiles(pattern: Seq<char>) -> bool;

/// What `regex::Regex::is_match` answers.
pub uninterp spec fn regex_is_match(pattern: Seq<char>, text: Seq<char>) -> bool;

/// What `regex::Regex::is_match_at` answers.
pub uninterp spec fn regex_is_match_at(pattern: Seq<char>, text: Seq<char>, start: nat) -> bool;

/// The leftmost-first match that `regex::Regex::find` reports.
pub uninterp spec fn regex_find(pattern: Seq<char>, text: Seq<char>) -> Option<Found>;

/// The match that `regex::Regex::find_at` reports.
pub uninterp spec fn regex_find_at(pattern: Seq<char>, text: Seq<char>, start: nat) -> Option<
    Found,
>;

/// The successive non-overlapping matches of `regex::Regex::find_iter`.
pub uninterp spec fn regex_find_all(pattern: Seq<char>, text: Seq<char>) -> Seq<Found>;

/// The capture groups of the first match, from `regex::Regex::captures`.
pub uninterp spec fn regex_captures(pattern: Seq<char>, text: Seq<char>) -> Option<
    Seq<Option<Found>>,
>;

/// The capture groups of each match, from `regex::Regex::captures_iter`.
pub uninterp spec fn regex_captures_all(pattern: Seq<char>, text: Seq<char>) -> Seq<
    Seq<Option<Found>>,
>;

/// The names of the capture groups, from `regex::Regex::capture_names`.
pub uninterp spec fn regex_capture_names(pattern: Seq<char>) -> Seq<Option<Seq<char>>>;

/// The text after `regex::Regex::replace`, with `$name` expanded.
pub uninterp spec fn regex_replace(pattern: Seq<char>, text: Seq<char>, rep: Seq<char>) -> Seq<char>;

/// The text after `regex::Regex::replace` with `regex::NoExpand`.
pub uninterp spec fn regex_replace_literal(pattern: Seq<char>, text: Seq<char>, rep: Seq<char>) -> Seq<
    char,
>;

/// The text after `regex::Regex::replace_all`, with `$name` expanded.
pub uninterp spec fn regex_replace_all(pattern: Seq<char>, text: Seq<char>, rep: Seq<char>) -> Seq<
    char,
>;

/// The text after `regex::Regex::replace_all` with `regex::NoExpand`.
pub uninterp spec fn regex_replace_all_literal(
    pattern: Seq<char>,
    text: Seq<char>,
    rep: Seq<char>,
) -> Seq<char>;

/// The pieces between matches, from `regex::Regex::split`.
pub uninterp spec fn regex_split(pattern: Seq<char>, text: Seq<char>) -> Seq<Seq<char>>;

/// Why a pattern was refused.
#[derive(Debug)]
pub struct ParseError {
    re_err: RegexError,
}

impl ParseError {
    pub fn from(re_err: RegexError) -> ParseError {
        ParseError { re_err }
    }
}

/// A compiled regular expression.
pub struct Regex {
    re: CompiledRegex,
    pattern: String,
}

impl View for Regex {
    type V = Seq<char>;

    /// The pattern it was compiled from.
    closed spec fn view(&self) -> Seq<char> {
        self.pattern@
    }
}

/// Relies on regex::Regex::new: compiles the pattern, or says why not.
#[verifier::external_body]
fn compile(p: &str) -> (r: Result<CompiledRegex, RegexError>)
    ensures
        r is Ok <==> regex_compiles(p@),
{
    CompiledRegex::new(p)
}

/// Relies on regex::Regex::is_match.
#[verifier::external_body]
fn is_match_raw(re: &Regex, text: &str) -> (r: bool)
    ensures
        r == regex_is_match(re@, text@),
{
    re.re.is_match(text)
}

/// Relies on regex::Regex::is_match_at, which panics when `start` is past the end.
#[verifier::external_body]
fn is_match_at_raw(re: &Regex, text: &str, start: usize) -> (r: bool)
    requires
        start <= text.spec_bytes().len(),
    ensures
        r == regex_is_match_at(re@, text@, start as nat),
{
    re.re.is_match_at(text, start)
}

/// Relies on regex::Regex::find: offsets and text of the leftmost-first match.
#[verifier::external_body]
fn find_raw(re: &Regex, text: &str) -> (r: Option<(usize, usize, String)>)
    ensures
        opt_found_view(r) == regex_find(re@, text@),
        r is Some ==> found_in(found_view(r->0), text@),
{
    re.re.find(text).map(|m| (m.start(), m.end(), m.as_str().to_string()))
}

/// Relies on regex::Regex::find_at, which panics when `start` is past the end.
#[verifier::external_body]
fn find_at_raw(re: &Regex, text: &str, start: usize) -> (r: Option<(usize, usize, String)>)
    requires
        start <= text.spec_bytes().len(),
    ensures
        opt_found_view(r) == regex_find_at(re@, text@, start as nat),
        r is Some ==> found_in(found_view(r->0), text@),
{
    re.re.find_at(text, start).map(|m| (m.start(), m.end(), m.as_str().to_string()))
}

/// Relies on regex::Regex::find_iter: every match, in order.
#[verifier::external_body]
fn find_all_raw(re: &Regex, text: &str) -> (r: Vec<(usize, usize, String)>)
    ensures
        founds_view(r@) == regex_find_all(re@, text@),
        forall|i: int| 0 <= i < r@.len() ==> found_in(#[trigger] founds_view(r@)[i], text@),
{
    re.re.find_iter(text).map(|m| (m.start(), m.end(), m.as_str().to_string())).collect()
}

/// Relies on regex::Regex::captures: the groups of the first match, group 0 being the match.
#[verifier::external_body]
fn captures_raw(re: &Regex, text: &str) -> (r: Option<Vec<Option<(usize, usize, String)>>>)
    ensures
        match r {
            Some(g) => regex_captures(re@, text@) == Some(groups_view(g@)) && groups_in(
                groups_view(g@),
                text@,
            ),
            None => regex_captures(re@, text@) is None,
        },
{
    re.re.captures(text).map(
        |c| c.iter().map(|g| g.map(|m| (m.start(), m.end(), m.as_str().to_string()))).collect(),
    )
}

/// Relies on regex::Regex::captures_iter: the groups of every match, in order.
#[verifier::external_body]
fn captures_all_raw(re: &Regex, text: &str) -> (r: Vec<Vec<Option<(usize, usize, String)>>>)
    ensures
        r@.map_values(|g: Vec<Option<(usize, usize, String)>>| groups_view(g@))
            == regex_captures_all(re@, text@),
        forall|i: int| 0 <= i < r@.len() ==> groups_in(groups_view(#[trigger] r@[i]@), text@),
{
    re.re.captures_iter(text).map(
        |c| c.iter().map(|g| g.map(|m| (m.start(), m.end(), m.as_str().to_string()))).collect(),
    ).collect()
}

/// Relies on regex::Regex::capture_names: the name of each group, `None` for unnamed ones.
#[verifier::external_body]
fn capture_names_raw(re: &Regex) -> (r: Vec<Option<String>>)
    ensures
        names_view(r@) == regex_capture_names(re@),
{
    re.re.capture_names().map(|n| n.map(|s| s.to_string())).collect()
}

/// Relies on regex::Regex::replace: the first match replaced, `$name` expanded.
#[verifier::external_body]
fn replace_raw(re: &Regex, text: &str, rep: &str) -> (r: String)
    ensures
        r@ == regex_replace(re@, text@, rep@),
{
    re.re.replace(text, rep).into_owned()
}

/// Relies on regex::Regex::replace with regex::NoExpand: the first match replaced verbatim.
#[verifier::external_body]
fn replace_literal_raw(re: &Regex, text: &str, rep: &str) -> (r: String)
    ensures
        r@ == regex_replace_literal(re@, text@, rep@),
{
    re.re.replace(text, NoExpand(rep)).into_owned()
}

/// Relies on regex::Regex::replace_all: every match replaced, `$name` expanded.
#[verifier::external_body]
fn replace_all_raw(re: &Regex, text: &str, rep: &str) -> (r: String)
    ensures
        r@ == regex_replace_all(re@, text@, rep@),
{
    re.re.replace_all(text, rep).into_owned()
}

/// Relies on regex::Regex::replace_all with regex::NoExpand: every match replaced verbatim.
#[verifier::external_body]
fn replace_all_literal_raw(re: &Regex, text: &str, rep: &str) -> (r: String)
    ensures
        r@ == regex_replace_all_literal(re@, text@, rep@),
{
    re.re.replace_all(text, NoExpand(rep)).into_owned()
}

/// Relies on regex::Regex::split: the text between matches.
#[verifier::external_body]
fn split_raw(re: &Regex, text: &str) -> (r: Vec<String>)
    ensures
        texts_view(r@) == regex_split(re@, text@),
{
    re.re.split(text).map(|s| s.to_string()).collect()
}

impl Regex {
    /// Compiles a regular expression.
    pub fn parse(re: &str) -> (r: Result<Regex, ParseError>)
        ensures
            r is Ok <==> regex_compiles(re@),
            r is Ok ==> r->Ok_0@ == re@,
    {
        match compile(re) {
            Ok(rr) => Ok(Regex { re: rr, pattern: re.to_owned() }),
            Err(err) => Err(ParseError::from(err)),
        }
    }
}

/// A single match: byte offsets in the searched text and the matched text.
#[derive(Debug)]
pub struct Match {
    start: usize,
    end: usize,
    text: String,
}

impl View for Match {
    type V = Found;

    closed spec fn view(&self) -> Found {
        (self.start, self.end, self.text@)
    }
}

pub open spec fn opt_match_view(o: Option<Match>) -> Option<Found> {
    match o {
        Some(m) => Some(m@),
        None => None,
    }
}

impl Match {
    pub fn new(start: usize, end: usize, text: String) -> (r: Match)
        ensures
            r@ == (start, end, text@),
    {
        Match { start, end, text }
    }

    /// The starting byte offset of the match in the searched text.
    pub fn start(&self) -> (r: usize)
        ensures
            r == self@.0,
    {
        self.start
    }

    /// The ending byte offset of the match in the searched text.
    pub fn end(&self) -> (r: usize)
        ensures
            r == self@.1,
    {
        self.end
    }

    /// The starting and ending byte offsets.
    pub fn range(&self) -> (r: Range<usize>)
        ensures
            r.start == self@.0,
            r.end == self@.1,
    {
        self.start..self.end
    }

    /// The matched text.
    pub fn as_str(&self) -> (r: &str)
        ensures
            r@ == self@.2,
    {
        self.text.as_str()
    }

    /// A second match with the same offsets and text.
    pub fn duplicate(&self) -> (r: Match)
        ensures
            r@ == self@,
    {
        Match { start: self.start, end: self.end, text: self.text.clone() }
    }
}

fn match_of(t: Option<(usize, usize, String)>) -> (r: Option<Match>)
    ensures
        opt_match_view(r) == opt_found_view(t),
{
    match t {
        Some((s, e, x)) => Some(Match::new(s, e, x)),
        None => None,
    }
}

/// The matches of a regular expression in a text, in order.
pub struct Matches {
    items: Vec<Match>,
}

impl View for Matches {
    type V = Seq<Found>;

    closed spec fn view(&self) -> Seq<Found> {
        self.items@.map_values(|m: Match| m@)
    }
}

impl Matches {
    pub fn new(found: Vec<(usize, usize, String)>) -> (r: Matches)
        ensures
            r@ == founds_view(found@),
    {
        let mut items: Vec<Match> = Vec::new();
        let mut i: usize = 0;
        while i < found.len()
            invariant
                i <= found@.len(),
                items@.len() == i,
                forall|j: int| 0 <= j < i ==> #[trigger] items@[j]@ == found_view(found@[j]),
            decreases found@.len() - i,
        {
            let (s, e, ref x) = found[i];
            items.push(Match::new(s, e, x.clone()));
            i = i + 1;
        }
        let r = Matches { items };
        assert(r@ =~= founds_view(found@));
        r
    }

    /// How many matches there are.
    pub fn count(&self) -> (r: usize)
        ensures
            r == self@.len(),
    {
        self.items.len()
    }

    /// The match at position `i`, if there is one.
    pub fn nth(&self, i: usize) -> (r: Option<Match>)
        ensures
            i < self@.len() ==> r is Some && r->0@ == self@[i as int],
            i >= self@.len() ==> r is None,
    {
        if i < self.items.len() {
            Some(self.items[i].duplicate())
        } else {
            None
        }
    }
}

/// The capture groups of one match, with the names of the groups.
pub struct Captures {
    groups: Vec<Option<Match>>,
    names: Vec<Option<String>>,
}

pub struct CapturesView {
    pub groups: Seq<Option<Found>>,
    pub names: Seq<Option<Seq<char>>>,
}

impl View for Captures {
    type V = CapturesView;

    closed spec fn view(&self) -> CapturesView {
        CapturesView {
            groups: self.groups@.map_values(|o: Option<Match>| opt_match_view(o)),
            names: names_view(self.names@),
        }
    }
}

/// The group whose name is `name`, if any: the first group carrying that name.
pub open spec fn named_group(c: CapturesView, name: Seq<char>) -> Option<Found> {
    if exists|j: int| 0 <= j < c.names.len() && j < c.groups.len() && c.names[j] == Some(name) {
        let j = choose|j: int|
            0 <= j < c.names.len() && j < c.groups.len() && c.names[j] == Some(name) && forall|
                k: int,
            |
                0 <= k < j ==> c.names[k] != Some(name);
        c.groups[j]
    } else {
        None
    }
}

fn names_of(v: &Vec<Option<String>>) -> (r: Vec<Option<String>>)
    ensures
        names_view(r@) == names_view(v@),
{
    let mut out: Vec<Option<String>> = Vec::new();
    let mut i: usize = 0;
    while i < v.len()
        invariant
            i <= v@.len(),
            out@.len() == i,
            forall|j: int| 0 <= j < i ==> names_view(out@)[j] == names_view(v@)[j],
        decreases v@.len() - i,
    {
        let n = match &v[i] {
            Some(s) => Some(s.clone()),
            None => None,
        };
        out.push(n);
        assert(names_view(out@)[i as int] == names_view(v@)[i as int]);
        i = i + 1;
    }
    assert(names_view(out@) =~= names_view(v@));
    out
}

impl Captures {
    pub fn new(groups: Vec<Option<(usize, usize, String)>>, names: Vec<Option<String>>) -> (r: Captures)
        ensures
            r@.groups == groups_view(groups@),
            r@.names == names_view(names@),
    {
        let mut gs: Vec<Option<Match>> = Vec::new();
        let mut i: usize = 0;
        while i < groups.len()
            invariant
                i <= groups@.len(),
                gs@.len() == i,
                forall|j: int| 0 <= j < i ==> opt_match_view(#[trigger] gs@[j]) == opt_found_view(groups@[j]),
            decreases groups@.len() - i,
        {
            let g = match &groups[i] {
                Some((s, e, x)) => Some(Match::new(*s, *e, x.clone())),
                None => None,
            };
            gs.push(g);
            i = i + 1;
        }
        let r = Captures { groups: gs, names };
        assert(r@.groups =~= groups_view(groups@));
        r
    }

    /// A second set of captures with the same groups and names.
    pub fn duplicate(&self) -> (r: Captures)
        ensures
            r@ == self@,
    {
        let mut gs: Vec<Option<Match>> = Vec::new();
        let mut i: usize = 0;
        while i < self.groups.len()
            invariant
                i <= self.groups@.len(),
                gs@.len() == i,
                forall|j: int| 0 <= j < i ==> opt_match_view(#[trigger] gs@[j]) == opt_match_view(self.groups@[j]),
            decreases self.groups@.len() - i,
        {
            let g = match &self.groups[i] {
                Some(m) => Some(m.duplicate()),
                None => None,
            };
            gs.push(g);
            i = i + 1;
        }
        let r = Captures { groups: gs, names: names_of(&self.names) };
        assert(r@.groups =~= self@.groups);
        r
    }

    fn group(&self, i: usize) -> (r: Option<Match>)
        ensures
            i < self@.groups.len() ==> opt_match_view(r) == self@.groups[i as int],
            i >= self@.groups.len() ==> r is None,
    {
        if i < self.groups.len() {
            match &self.groups[i] {
                Some(m) => Some(m.duplicate()),
                None => None,
            }
        } else {
            None
        }
    }

    fn named(&self, name: &str) -> (r: Option<Match>)
        ensures
            opt_match_view(r) == named_group(self@, name@),
    {
        let ghost c = self@;
        let mut j: usize = 0;
        while j < self.names.len() && j < self.groups.len()
            invariant
                c == self@,
                j <= self.names@.len(),
                forall|k: int| 0 <= k < j ==> c.names[k] != Some(name@),
            decreases self.names@.len() - j,
        {
            let hit = match &self.names[j] {
                Some(n) => crate::essential::same_text(n.as_str(), name),
                None => false,
            };
            assert(hit == (c.names[j as int] == Some(name@)));
            if hit {
                return self.group(j);
            }
            j = j + 1;
        }
        None
    }
}

/// Looking up a capture group.
pub trait CaptureIndexer<T> {
    spec fn indexed(&self, index: T) -> Option<Found>;

    /// The group at `index`, if it took part in the match.
    fn get(&self, index: T) -> (r: Option<Match>)
        ensures
            opt_match_view(r) == self.indexed(index),
    ;
}

impl CaptureIndexer<usize> for Captures {
    open spec fn indexed(&self, index: usize) -> Option<Found> {
        if index < self@.groups.len() {
            self@.groups[index as int]
        } else {
            None
        }
    }

    fn get(&self, index: usize) -> (r: Option<Match>) {
        self.group(index)
    }
}

impl<'a> CaptureIndexer<&'a str> for Captures {
    open spec fn indexed(&self, index: &'a str) -> Option<Found> {
        named_group(self@, index@)
    }

    fn get(&self, index: &'a str) -> (r: Option<Match>) {
        self.named(index)
    }
}

impl CaptureIndexer<String> for Captures {
    open spec fn indexed(&self, index: String) -> Option<Found> {
        named_group(self@, index@)
    }

    fn get(&self, index: String) -> (r: Option<Match>) {
        self.named(index.as_str())
    }
}

/// The captures of every match of a regular expression in a text, in order.
pub struct CaptureMatches {
    items: Vec<Captures>,
    next_index: usize,
}

impl CaptureMatches {
    spec fn all(&self) -> Seq<CapturesView> {
        self.items@.map_values(|c: Captures| c@)
    }

    pub closed spec fn remaining(&self) -> Seq<CapturesView> {
        if self.next_index < self.items@.len() {
            self.all().subrange(self.next_index as int, self.items@.len() as int)
        } else {
            Seq::empty()
        }
    }

    pub fn new(items: Vec<Captures>) -> (r: CaptureMatches)
        ensures
            r.remaining() == items@.map_values(|c: Captures| c@),
    {
        let r = CaptureMatches { items, next_index: 0 };
        assert(r.all().subrange(0, r.items@.len() as int) =~= r.all());
        r
    }

    /// The captures of the next match, if any are left.
    pub fn next(&mut self) -> (r: Option<Captures>)
        ensures
            old(self).remaining().len() == 0 ==> r is None && final(self).remaining() == old(
                self,
            ).remaining(),
            old(self).remaining().len() > 0 ==> r is Some && r->0@ == old(self).remaining()[0]
                && final(self).remaining() == old(self).remaining().drop_first(),
    {
        if self.next_index < self.items.len() {
            let c = self.items[self.next_index].duplicate();
            self.next_index = self.next_index + 1;
            assert(self.remaining() =~= old(self).remaining().drop_first());
            Some(c)
        } else {
            None
        }
    }
}

/// The pieces of a text between the matches of a regular expression.
pub struct Split {
    pieces: Vec<String>,
}

impl View for Split {
    type V = Seq<Seq<char>>;

    closed spec fn view(&self) -> Seq<Seq<char>> {
        texts_view(self.pieces@)
    }
}

impl Split {
    pub fn new(pieces: Vec<String>) -> (r: Split)
        ensures
            r@ == texts_view(pieces@),
    {
        Split { pieces }
    }

    /// The pieces, in order.
    pub fn into_vec(self) -> (r: Vec<String>)
        ensures
            texts_view(r@) == self@,
    {
        self.pieces
    }
}

/// Searching with a regular expression.
pub trait Matcher {
    spec fn pattern_view(&self) -> Seq<char>;

    /// Whether the text holds a match.
    fn is_match(&self, text: &str) -> (r: bool)
        ensures
            r == regex_is_match(self.pattern_view(), text@),
    ;

    /// Whether the text holds a match, searching from byte offset `offset`.
    fn is_match_at(&self, text: &str, offset: usize) -> (r: bool)
        requires
            offset <= text.spec_bytes().len(),
        ensures
            r == regex_is_match_at(self.pattern_view(), text@, offset as nat),
    ;

    /// The leftmost-first match, if any.
    fn find_first(&self, text: &str) -> (r: Option<Match>)
        ensures
            opt_match_view(r) == regex_find(self.pattern_view(), text@),
            r is Some ==> found_in(r->0@, text@),
    ;

    /// The leftmost-first match, searching from byte offset `offset`.
    fn find_at(&self, text: &str, offset: usize) -> (r: Option<Match>)
        requires
            offset <= text.spec_bytes().len(),
        ensures
            opt_match_view(r) == regex_find_at(self.pattern_view(), text@, offset as nat),
            r is Some ==> found_in(r->0@, text@),
    ;

    /// Every non-overlapping match, in order.
    fn find_iter(&self, text: &str) -> (r: Matches)
        ensures
            r@ == regex_find_all(self.pattern_view(), text@),
            forall|i: int| 0 <= i < r@.len() ==> found_in(#[trigger] r@[i], text@),
    ;

    /// The capture groups of the leftmost-first match; group 0 is the whole match.
    fn capture_first(&self, text: &str) -> (r: Option<Captures>)
        ensures
            match r {
                Some(c) => regex_captures(self.pattern_view(), text@) == Some(c@.groups)
                    && c@.names == regex_capture_names(self.pattern_view()) && groups_in(
                    c@.groups,
                    text@,
                ),
                None => regex_captures(self.pattern_view(), text@) is None,
            },
    ;

    /// The capture groups of every non-overlapping match, in order.
    fn capture_iter(&self, text: &str) -> (r: CaptureMatches)
        ensures
            r.remaining().len() == regex_captures_all(self.pattern_view(), text@).len(),
            forall|i: int|
                0 <= i < r.remaining().len() ==> #[trigger] r.remaining()[i].groups
                    == regex_captures_all(self.pattern_view(), text@)[i] && r.remaining()[i].names
                    == regex_capture_names(self.pattern_view()) && groups_in(
                    r.remaining()[i].groups,
                    text@,
                ),
    ;
}

/// Replacing matches of a regular expression.
pub trait Replacer {
    spec fn replacer_view(&self) -> Seq<char>;

    /// The first match replaced, `$name` expanded to the group of that name.
    fn replace_first(&self, text: &str, replace: &str) -> (r: String)
        ensures
            r@ == regex_replace(self.replacer_view(), text@, replace@),
    ;

    /// The first match replaced by `replace` as it stands.
    fn replace_first_noexpansion(&self, text: &str, replace: &str) -> (r: String)
        ensures
            r@ == regex_replace_literal(self.replacer_view(), text@, replace@),
    ;

    /// Every match replaced, `$name` expanded to the group of that name.
    fn replace_all(&self, text: &str, replace: &str) -> (r: String)
        ensures
            r@ == regex_replace_all(self.replacer_view(), text@, replace@),
    ;

    /// Every match replaced by `replace` as it stands.
    fn replace_all_noexpansion(&self, text: &str, replace: &str) -> (r: String)
        ensures
            r@ == regex_replace_all_literal(self.replacer_view(), text@, replace@),
    ;
}

/// Cutting text at the matches of a regular expression.
pub trait Splitter {
    spec fn splitter_view(&self) -> Seq<char>;

    /// The pieces of text between matches.
    fn split(&self, text: &str) -> (r: Split)
        ensures
            r@ == regex_split(self.splitter_view(), text@),
    ;
}

impl Matcher for Regex {
    open spec fn pattern_view(&self) -> Seq<char> {
        self@
    }

    fn is_match(&self, text: &str) -> (r: bool) {
        is_match_raw(self, text)
    }

    fn is_match_at(&self, text: &str, offset: usize) -> (r: bool) {
        is_match_at_raw(self, text, offset)
    }

    fn find_first(&self, text: &str) -> (r: Option<Match>) {
        match_of(find_raw(self, text))
    }

    fn find_at(&self, text: &str, offset: usize) -> (r: Option<Match>) {
        match_of(find_at_raw(self, text, offset))
    }

    fn find_iter(&self, text: &str) -> (r: Matches) {
        Matches::new(find_all_raw(self, text))
    }

    fn capture_first(&self, text: &str) -> (r: Option<Captures>) {
        match captures_raw(self, text) {
            Some(groups) => Some(Captures::new(groups, capture_names_raw(self))),
            None => None,
        }
    }

    fn capture_iter(&self, text: &str) -> (r: CaptureMatches) {
        let all = captures_all_raw(self, text);
        let ghost want = regex_captures_all(self@, text@);
        let ghost names = regex_capture_names(self@);
        let mut items: Vec<Captures> = Vec::new();
        let mut i: usize = 0;
        while i < all.len()
            invariant
                i <= all@.len(),
                items@.len() == i,
                all@.map_values(|g: Vec<Option<(usize, usize, String)>>| groups_view(g@)) == want,
                names == regex_capture_names(self@),
                forall|j: int|
                    0 <= j < i ==> (#[trigger] items@[j])@.groups == want[j] && items@[j]@.names
                        == names,
            decreases all@.len() - i,
        {
            let mut groups: Vec<Option<(usize, usize, String)>> = Vec::new();
            let mut k: usize = 0;
            while k < all[i].len()
                invariant
                    i < all@.len(),
                    k <= all@[i as int]@.len(),
                    groups@.len() == k,
                    forall|m: int| 0 <= m < k ==> opt_found_view(#[trigger] groups@[m]) == opt_found_view(all@[i as int]@[m]),
                decreases all@[i as int]@.len() - k,
            {
                let g = match &all[i][k] {
                    Some((s, e, x)) => Some((*s, *e, x.clone())),
                    None => None,
                };
                groups.push(g);
                k = k + 1;
            }
            assert(groups_view(groups@) =~= groups_view(all@[i as int]@));
            assert(want[i as int] == groups_view(all@[i as int]@));
            items.push(Captures::new(groups, capture_names_raw(self)));
            i = i + 1;
        }
        let r = CaptureMatches::new(items);
        assert(r.remaining().len() == want.len());
        r
    }
}

impl Replacer for Regex {
    open spec fn replacer_view(&self) -> Seq<char> {
        self@
    }

    fn replace_first(&self, text: &str, replace: &str) -> (r: String) {
        replace_raw(self, text, replace)
    }

    fn replace_first_noexpansion(&self, text: &str, replace: &str) -> (r: String) {
        replace_literal_raw(self, text, replace)
    }

    fn replace_all(&self, text: &str, replace: &str) -> (r: String) {
        replace_all_raw(self, text, replace)
    }

    fn replace_all_noexpansion(&self, text: &str, replace: &str) -> (r: String) {
        replace_all_literal_raw(self, text, replace)
    }
}

impl Splitter for Regex {
    open spec fn splitter_view(&self) -> Seq<char> {
        self@
    }

    fn split(&self, text: &str) -> (r: Split) {
        Split::new(split_raw(self, text))
    }
}

} // verus!
