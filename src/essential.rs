//! Character-level helpers shared by the text modules.
use vstd::prelude::*;

verus! {

/// Number of occurrences of `x` in `s`.
pub open spec fn occurrences(s: Seq<char>, x: char) -> nat
    decreases s.len(),
{
    if s.len() == 0 {
        0
    } else {
        occurrences(s.drop_last(), x) + if s.last() == x { 1nat } else { 0nat }
    }
}

/// Codepoint-based slicing of text.
pub trait StringEssential {
    spec fn chars_view(&self) -> Seq<char>;

    /// The characters from `start` up to (not including) `finish`; `None` when the range is
    /// empty or runs past the end.
    fn substring(&self, start: usize, finish: usize) -> (r: Option<&str>)
        ensures
            r is Some <==> start < finish && finish <= self.chars_view().len(),
            r is Some ==> r->0@ == self.chars_view().subrange(start as int, finish as int),
    ;

    /// The characters from `start` to the end; `None` when `start` is not before the end.
    fn substring_to_end(&self, start: usize) -> (r: Option<&str>)
        ensures
            r is Some <==> start < self.chars_view().len(),
            r is Some ==> r->0@ == self.chars_view().subrange(
                start as int,
                self.chars_view().len() as int,
            ),
    ;

    /// How many times `x` occurs.
    fn count_char(&self, x: char) -> (r: usize)
        ensures
            r == occurrences(self.chars_view(), x),
    ;
}

impl StringEssential for str {
    open spec fn chars_view(&self) -> Seq<char> {
        self@
    }

    fn substring(&self, start: usize, finish: usize) -> (r: Option<&str>) {
        if finish <= start {
            None
        } else if self.unicode_len() < finish {
            None
        } else {
            Some(self.substring_char(start, finish))
        }
    }

    fn substring_to_end(&self, start: usize) -> (r: Option<&str>) {
        let n = self.unicode_len();
        if n <= start {
            None
        } else {
            Some(self.substring_char(start, n))
        }
    }

    fn count_char(&self, x: char) -> (r: usize) {
        let cs = chars_of(self);
        let mut n: usize = 0;
        let mut i: usize = 0;
        while i < cs.len()
            invariant
                i <= cs@.len(),
                cs@ == self@,
                n == occurrences(cs@.take(i as int), x),
                n <= i,
            decreases cs@.len() - i,
        {
            assert(cs@.take(i + 1).drop_last() == cs@.take(i as int));
            if cs[i] == x {
                n = n + 1;
            }
            i = i + 1;
        }
        assert(cs@.take(cs@.len() as int) == cs@);
        n
    }
}

/// The characters of `s`, one element per Unicode scalar value.
pub fn chars_of(s: &str) -> (r: Vec<char>)
    ensures
        r@ == s@,
{
    let mut r: Vec<char> = Vec::new();
    for c in it: s.chars()
        invariant
            r@ == it.seq().take(it.index() as int),
    {
        r.push(c);
    }
    r
}

/// Relies on String::push: the character is appended at the end.
#[verifier::external_body]
pub(crate) fn push_char(s: &mut String, c: char)
    ensures
        final(s)@ == old(s)@.push(c),
{
    s.push(c);
}

/// A string holding exactly the given characters.
pub fn string_of(cs: &[char]) -> (r: String)
    ensures
        r@ == cs@,
{
    let mut r = String::new();
    let mut i: usize = 0;
    while i < cs.len()
        invariant
            i <= cs@.len(),
            r@ == cs@.take(i as int),
        decreases cs@.len() - i,
    {
        push_char(&mut r, cs[i]);
        assert(cs@.take(i + 1) == cs@.take(i as int).push(cs@[i as int]));
        i = i + 1;
    }
    assert(cs@.take(cs@.len() as int) == cs@);
    r
}

/// Whether two texts hold the same characters.
pub fn same_text(a: &str, b: &str) -> (r: bool)
    ensures
        r == (a@ == b@),
{
    let x = chars_of(a);
    let y = chars_of(b);
    if x.len() != y.len() {
        assert(x@.len() != y@.len());
        return false;
    }
    let mut i: usize = 0;
    while i < x.len()
        invariant
            i <= x@.len(),
            x@ == a@,
            y@ == b@,
            x@.len() == y@.len(),
            forall|j: int| 0 <= j < i ==> x@[j] == y@[j],
        decreases x@.len() - i,
    {
        if x[i] != y[i] {
            assert(x@[i as int] != y@[i as int]);
            return false;
        }
        i = i + 1;
    }
    assert(x@ =~= y@);
    true
}

} // verus!
