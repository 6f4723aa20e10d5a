//! Positions in text: the first occurrence of a character, the end of a run of digits, and
//! the number a run of digits denotes.
use vstd::prelude::*;
use crate::compare::{digit_value, digits_value};
use crate::identifier::{all_digits, is_digit};

verus! {

/// The index of the first `c` in `s`, or the length of `s` when there is none.
pub open spec fn find_char(s: Seq<char>, c: char) -> int
    decreases s.len(),
{
    if s.len() == 0 {
        0
    } else if s[0] == c {
        0
    } else {
        1 + find_char(s.drop_first(), c)
    }
}

/// The number of digits at the start of `s`.
pub open spec fn digit_run(s: Seq<char>) -> int
    decreases s.len(),
{
    if s.len() == 0 {
        0
    } else if !is_digit(s[0]) {
        0
    } else {
        1 + digit_run(s.drop_first())
    }
}

pub proof fn lemma_find_char_bounds(s: Seq<char>, c: char)
    ensures
        0 <= find_char(s, c) <= s.len(),
        find_char(s, c) < s.len() ==> s[find_char(s, c)] == c,
    decreases s.len(),
{
    if s.len() > 0 && s[0] != c {
        lemma_find_char_bounds(s.drop_first(), c);
    }
}

pub proof fn lemma_find_char(s: Seq<char>, c: char, i: int)
    requires
        0 <= i <= s.len(),
        forall|j: int| 0 <= j < i ==> s[j] != c,
        i == s.len() || s[i] == c,
    ensures
        find_char(s, c) == i,
    decreases i,
{
    if i > 0 {
        assert(s[0] != c);
        let t = s.drop_first();
        assert forall|j: int| 0 <= j < i - 1 implies t[j] != c by {
            assert(t[j] == s[j + 1]);
        }
        if i < s.len() {
            assert(t[i - 1] == s[i]);
        }
        lemma_find_char(t, c, i - 1);
    }
}

pub proof fn lemma_digit_run(s: Seq<char>, i: int)
    requires
        0 <= i <= s.len(),
        forall|j: int| 0 <= j < i ==> is_digit(s[j]),
        i == s.len() || !is_digit(s[i]),
    ensures
        digit_run(s) == i,
    decreases i,
{
    if i > 0 {
        assert(is_digit(s[0]));
        let t = s.drop_first();
        assert forall|j: int| 0 <= j < i - 1 implies is_digit(t[j]) by {
            assert(t[j] == s[j + 1]);
        }
        if i < s.len() {
            assert(t[i - 1] == s[i]);
        }
        lemma_digit_run(t, i - 1);
    }
}

/// The index of the first `c` at or after `start`, or the length of `s`.
pub fn find_from(s: &[char], start: usize, c: char) -> (r: usize)
    requires
        start <= s@.len(),
    ensures
        start <= r <= s@.len(),
        r == start + find_char(s@.skip(start as int), c),
{
    let mut i: usize = start;
    while i < s.len() && s[i] != c
        invariant
            start <= i <= s@.len(),
            forall|j: int| start <= j < i ==> s@[j] != c,
        decreases s@.len() - i,
    {
        i = i + 1;
    }
    proof {
        let t = s@.skip(start as int);
        assert forall|j: int| 0 <= j < i - start implies t[j] != c by {
            assert(t[j] == s@[start + j]);
        }
        if i < s@.len() {
            assert(t[i - start] == s@[i as int]);
        }
        lemma_find_char(t, c, i - start);
    }
    i
}

/// The end of the run of digits that begins at `start`.
pub fn digits_from(s: &[char], start: usize) -> (r: usize)
    requires
        start <= s@.len(),
    ensures
        start <= r <= s@.len(),
        r == start + digit_run(s@.skip(start as int)),
{
    let mut i: usize = start;
    while i < s.len() && '0' <= s[i] && s[i] <= '9'
        invariant
            start <= i <= s@.len(),
            forall|j: int| start <= j < i ==> is_digit(s@[j]),
        decreases s@.len() - i,
    {
        i = i + 1;
    }
    proof {
        let t = s@.skip(start as int);
        assert forall|j: int| 0 <= j < i - start implies is_digit(t[j]) by {
            assert(t[j] == s@[start + j]);
        }
        if i < s@.len() {
            assert(t[i - start] == s@[i as int]);
        }
        lemma_digit_run(t, i - start);
    }
    i
}

/// A longer prefix of digits never denotes a smaller number.
pub proof fn lemma_prefix_value(s: Seq<char>, j: int)
    requires
        0 <= j <= s.len(),
    ensures
        digits_value(s.take(j)) <= digits_value(s),
    decreases s.len() - j,
{
    if j < s.len() {
        lemma_prefix_value(s, j + 1);
        assert(s.take(j + 1).drop_last() =~= s.take(j));
    } else {
        assert(s.take(j) =~= s);
    }
}

/// The number that the digits of `s` denote, or `None` when it does not fit in `u64`.
pub fn value_of(s: &[char]) -> (r: Option<u64>)
    requires
        all_digits(s@),
    ensures
        r is Some <==> digits_value(s@) <= u64::MAX,
        r is Some ==> r->0 == digits_value(s@),
{
    let mut acc: u64 = 0;
    let mut i: usize = 0;
    assert(s@.take(0) =~= Seq::<char>::empty());
    while i < s.len()
        invariant
            i <= s@.len(),
            all_digits(s@),
            acc == digits_value(s@.take(i as int)),
        decreases s@.len() - i,
    {
        assert(s@.take(i + 1).drop_last() =~= s@.take(i as int));
        assert(s@.take(i + 1).last() == s@[i as int]);
        assert(is_digit(s@[i as int]));
        let d: u64 = (s[i] as u64) - ('0' as u64);
        assert(d == digit_value(s@[i as int]));
        match acc.checked_mul(10) {
            None => {
                proof {
                    lemma_prefix_value(s@, i + 1);
                }
                return None;
            },
            Some(m) => match m.checked_add(d) {
                None => {
                    proof {
                        lemma_prefix_value(s@, i + 1);
                    }
                    return None;
                },
                Some(v) => {
                    acc = v;
                },
            },
        }
        i = i + 1;
    }
    assert(s@.take(s@.len() as int) =~= s@);
    Some(acc)
}

} // verus!
