//! Precedence of pre-release identifiers.
use vstd::prelude::*;
use std::cmp::Ordering;
use crate::essential::chars_of;
use crate::identifier::{all_digits, is_digit};

verus! {

pub open spec fn digit_value(c: char) -> nat {
    ((c as int) - ('0' as int)) as nat
}

/// The number that a string of decimal digits denotes.
pub open spec fn digits_value(s: Seq<char>) -> nat
    decreases s.len(),
{
    if s.len() == 0 {
        0
    } else {
        digits_value(s.drop_last()) * 10 + digit_value(s.last())
    }
}

pub open spec fn cmp_nat(a: nat, b: nat) -> Ordering {
    if a < b {
        Ordering::Less
    } else if a > b {
        Ordering::Greater
    } else {
        Ordering::Equal
    }
}

/// Order by character code, position by position; a proper prefix comes first.
pub open spec fn lex_cmp(a: Seq<char>, b: Seq<char>) -> Ordering
    decreases a.len(),
{
    if a.len() == 0 && b.len() == 0 {
        Ordering::Equal
    } else if a.len() == 0 {
        Ordering::Less
    } else if b.len() == 0 {
        Ordering::Greater
    } else if a[0] < b[0] {
        Ordering::Less
    } else if a[0] > b[0] {
        Ordering::Greater
    } else {
        lex_cmp(a.drop_first(), b.drop_first())
    }
}

/// An identifier made of digits only.
pub open spec fn is_numeric(s: Seq<char>) -> bool {
    s.len() > 0 && all_digits(s)
}

/// Precedence of two identifiers: numbers by value, below every other identifier, which
/// compare by character code.
pub open spec fn ident_cmp(x: Seq<char>, y: Seq<char>) -> Ordering {
    if is_numeric(x) && is_numeric(y) {
        cmp_nat(digits_value(x), digits_value(y))
    } else if is_numeric(x) {
        Ordering::Less
    } else if is_numeric(y) {
        Ordering::Greater
    } else {
        lex_cmp(x, y)
    }
}

/// Precedence of two identifier lists: the first differing position decides, else the
/// shorter list comes first.
pub open spec fn ids_cmp(a: Seq<Seq<char>>, b: Seq<Seq<char>>) -> Ordering
    decreases a.len(),
{
    if a.len() == 0 && b.len() == 0 {
        Ordering::Equal
    } else if a.len() == 0 {
        Ordering::Less
    } else if b.len() == 0 {
        Ordering::Greater
    } else if ident_cmp(a[0], b[0]) != Ordering::Equal {
        ident_cmp(a[0], b[0])
    } else {
        ids_cmp(a.drop_first(), b.drop_first())
    }
}

spec fn zeros(k: nat) -> Seq<char> {
    Seq::new(k, |i: int| '0')
}

proof fn lemma_zeros_value(k: nat)
    ensures
        digits_value(zeros(k)) == 0,
    decreases k,
{
    if k > 0 {
        assert(zeros(k).drop_last() =~= zeros((k - 1) as nat));
        lemma_zeros_value((k - 1) as nat);
    }
}

/// Leading zeros do not change the value.
proof fn lemma_padded_value(k: nat, s: Seq<char>)
    ensures
        digits_value(zeros(k) + s) == digits_value(s),
    decreases s.len(),
{
    if s.len() == 0 {
        assert(zeros(k) + s =~= zeros(k));
        lemma_zeros_value(k);
    } else {
        assert((zeros(k) + s).drop_last() =~= zeros(k) + s.drop_last());
        lemma_padded_value(k, s.drop_last());
    }
}

proof fn lemma_step_keeps(a: nat, b: nat, da: nat, db: nat)
    requires
        a < b,
        da <= 9,
        db <= 9,
    ensures
        a * 10 + da < b * 10 + db,
{
    assert(a * 10 + 10 <= b * 10) by (nonlinear_arith)
        requires
            a < b,
    ;
}

fn digit_at(s: &[char], pad: usize, i: usize) -> (c: char)
    requires
        pad <= i < pad + s@.len(),
    ensures
        c == s@[i - pad],
{
    s[i - pad]
}

/// Compares two digit strings by the numbers they denote.
pub fn cmp_numeric(x: &[char], y: &[char]) -> (r: Ordering)
    requires
        all_digits(x@),
        all_digits(y@),
    ensures
        r == cmp_nat(digits_value(x@), digits_value(y@)),
{
    let n: usize = if x.len() < y.len() { y.len() } else { x.len() };
    let px: usize = n - x.len();
    let py: usize = n - y.len();
    let ghost sx = zeros(px as nat) + x@;
    let ghost sy = zeros(py as nat) + y@;
    let mut ord = Ordering::Equal;
    let mut i: usize = 0;
    assert(sx.take(0) =~= Seq::<char>::empty());
    assert(sy.take(0) =~= Seq::<char>::empty());
    while i < n
        invariant
            i <= n,
            sx.len() == n,
            sy.len() == n,
            px == n - x@.len(),
            py == n - y@.len(),
            sx == zeros(px as nat) + x@,
            sy == zeros(py as nat) + y@,
            all_digits(x@),
            all_digits(y@),
            ord == cmp_nat(digits_value(sx.take(i as int)), digits_value(sy.take(i as int))),
        decreases n - i,
    {
        let cx = if i < px { '0' } else { digit_at(x, px, i) };
        let cy = if i < py { '0' } else { digit_at(y, py, i) };
        assert(cx == sx[i as int]);
        assert(cy == sy[i as int]);
        assert(sx.take(i + 1).drop_last() =~= sx.take(i as int));
        assert(sy.take(i + 1).drop_last() =~= sy.take(i as int));
        let ghost a = digits_value(sx.take(i as int));
        let ghost b = digits_value(sy.take(i as int));
        assert(is_digit(cx) && is_digit(cy)) by {
            if i >= px {
                assert(is_digit(x@[i - px]));
            }
            if i >= py {
                assert(is_digit(y@[i - py]));
            }
        }
        proof {
            if a < b {
                lemma_step_keeps(a, b, digit_value(cx), digit_value(cy));
            } else if b < a {
                lemma_step_keeps(b, a, digit_value(cy), digit_value(cx));
            }
        }
        match ord {
            Ordering::Equal => {
                if cx < cy {
                    ord = Ordering::Less;
                } else if cx > cy {
                    ord = Ordering::Greater;
                }
            },
            _ => {},
        }
        i = i + 1;
    }
    assert(sx.take(n as int) =~= sx);
    assert(sy.take(n as int) =~= sy);
    proof {
        lemma_padded_value(px as nat, x@);
        lemma_padded_value(py as nat, y@);
    }
    ord
}

/// Compares two texts by character code.
pub fn cmp_lexical(x: &[char], y: &[char]) -> (r: Ordering)
    ensures
        r == lex_cmp(x@, y@),
{
    let mut i: usize = 0;
    assert(x@.skip(0) =~= x@);
    assert(y@.skip(0) =~= y@);
    while i < x.len() && i < y.len()
        invariant
            i <= x@.len(),
            i <= y@.len(),
            lex_cmp(x@, y@) == lex_cmp(x@.skip(i as int), y@.skip(i as int)),
        decreases x@.len() - i,
    {
        let ghost xs = x@.skip(i as int);
        let ghost ys = y@.skip(i as int);
        assert(xs[0] == x@[i as int]);
        assert(ys[0] == y@[i as int]);
        if x[i] < y[i] {
            return Ordering::Less;
        }
        if x[i] > y[i] {
            return Ordering::Greater;
        }
        assert(xs.drop_first() =~= x@.skip(i + 1));
        assert(ys.drop_first() =~= y@.skip(i + 1));
        i = i + 1;
    }
    if x.len() == y.len() {
        Ordering::Equal
    } else if x.len() == i {
        Ordering::Less
    } else {
        Ordering::Greater
    }
}

fn scan_all_digits(s: &[char]) -> (r: bool)
    ensures
        r == is_numeric(s@),
{
    if s.len() == 0 {
        return false;
    }
    let mut i: usize = 0;
    while i < s.len()
        invariant
            i <= s@.len(),
            forall|j: int| 0 <= j < i ==> is_digit(s@[j]),
        decreases s@.len() - i,
    {
        if !('0' <= s[i] && s[i] <= '9') {
            return false;
        }
        i = i + 1;
    }
    true
}

/// Precedence of two identifiers given as characters.
pub fn cmp_identifier(x: &[char], y: &[char]) -> (r: Ordering)
    ensures
        r == ident_cmp(x@, y@),
{
    let nx = scan_all_digits(x);
    let ny = scan_all_digits(y);
    if nx && ny {
        cmp_numeric(x, y)
    } else if nx {
        Ordering::Less
    } else if ny {
        Ordering::Greater
    } else {
        cmp_lexical(x, y)
    }
}

/// Precedence of two pre-release identifiers: numbers by value, below every other
/// identifier, which compare by character code.
pub fn cmp_pre_release(x: &str, y: &str) -> (r: Ordering)
    ensures
        r == ident_cmp(x@, y@),
{
    let cx = chars_of(x);
    let cy = chars_of(y);
    cmp_identifier(cx.as_slice(), cy.as_slice())
}

} // verus!
