//! Pseudo-random numbers from the thread-local generator of `rand`, and random ASCII text.
use vstd::prelude::*;
use std::ops::Range;
use rand::rngs::ThreadRng;
use rand::Rng;
use crate::essential::string_of;

verus! {

#[verifier::external_type_specification]
#[verifier::external_body]
pub struct ExThreadRng(ThreadRng);

/// Relies on rand::thread_rng: a handle to this thread's lazily seeded generator.
#[verifier::external_body]
fn thread_rng_handle() -> ThreadRng {
    rand::thread_rng()
}

/// Relies on rand::Rng::gen_range: a value inside `lo..hi`, which must not be empty.
#[verifier::external_body]
fn gen_range_u128(rng: &mut ThreadRng, lo: u128, hi: u128) -> (r: u128)
    requires
        lo < hi,
    ensures
        lo <= r < hi,
{
    rng.gen_range(lo..hi)
}

/// Relies on rand::Rng::gen_range: a value inside `lo..hi`, which must not be empty.
#[verifier::external_body]
fn gen_range_i128(rng: &mut ThreadRng, lo: i128, hi: i128) -> (r: i128)
    requires
        lo < hi,
    ensures
        lo <= r < hi,
{
    rng.gen_range(lo..hi)
}

/// Relies on rand::Rng::gen: a value of the standard distribution of `T` (every value of
/// an integer type, `true` and `false` alike for `bool`).
#[verifier::external_body]
fn gen_value<T>(rng: &mut ThreadRng) -> T
    where
        rand::distributions::Standard: rand::distributions::Distribution<T>,
{
    rng.gen()
}

/// Relies on rand::Rng::gen_ratio, which panics unless `numerator <= denominator` and
/// `denominator > 0`: `true` with probability `numerator / denominator`.
#[verifier::external_body]
fn gen_ratio(rng: &mut ThreadRng, numerator: u32, denominator: u32) -> bool
    requires
        0 < denominator,
        numerator <= denominator,
{
    rng.gen_ratio(numerator, denominator)
}

/// Pseudo-random number generator.
pub struct Random {
    rng: ThreadRng,
}

impl Random {
    /// A generator drawing from this thread's generator.
    pub fn new_thread_local() -> Random {
        Random { rng: thread_rng_handle() }
    }

    /// `true` or `false`.
    pub fn next_bool(&mut self) -> bool {
        gen_value::<bool>(&mut self.rng)
    }

    /// `true` with probability `numerator / denominator`.
    pub fn next_ratio(&mut self, numerator: u32, denominator: u32) -> bool
        requires
            0 < denominator,
            numerator <= denominator,
    {
        gen_ratio(&mut self.rng, numerator, denominator)
    }

    /// Any `u8`.
    pub fn next_u8(&mut self) -> u8 {
        gen_value::<u8>(&mut self.rng)
    }

    /// Any `u16`.
    pub fn next_u16(&mut self) -> u16 {
        gen_value::<u16>(&mut self.rng)
    }

    /// Any `u32`.
    pub fn next_u32(&mut self) -> u32 {
        gen_value::<u32>(&mut self.rng)
    }

    /// Any `u64`.
    pub fn next_u64(&mut self) -> u64 {
        gen_value::<u64>(&mut self.rng)
    }

    /// Any `u128`.
    pub fn next_u128(&mut self) -> u128 {
        gen_value::<u128>(&mut self.rng)
    }

    /// Any `usize`.
    pub fn next_usize(&mut self) -> usize {
        gen_value::<usize>(&mut self.rng)
    }

    /// Any `i8`.
    pub fn next_i8(&mut self) -> i8 {
        gen_value::<i8>(&mut self.rng)
    }

    /// Any `i16`.
    pub fn next_i16(&mut self) -> i16 {
        gen_value::<i16>(&mut self.rng)
    }

    /// Any `i32`.
    pub fn next_i32(&mut self) -> i32 {
        gen_value::<i32>(&mut self.rng)
    }

    /// Any `i64`.
    pub fn next_i64(&mut self) -> i64 {
        gen_value::<i64>(&mut self.rng)
    }

    /// Any `i128`.
    pub fn next_i128(&mut self) -> i128 {
        gen_value::<i128>(&mut self.rng)
    }

    /// Any `isize`.
    pub fn next_isize(&mut self) -> isize {
        gen_value::<isize>(&mut self.rng)
    }

    /// A number inside `range`, which must not be empty.
    pub fn next_range_u8(&mut self, range: Range<u8>) -> (r: u8)
        requires
            range.start < range.end,
        ensures
            range.start <= r < range.end,
    {
        gen_range_u128(&mut self.rng, range.start as u128, range.end as u128) as u8
    }

    /// A number inside `range`, which must not be empty.
    pub fn next_range_u16(&mut self, range: Range<u16>) -> (r: u16)
        requires
            range.start < range.end,
        ensures
            range.start <= r < range.end,
    {
        gen_range_u128(&mut self.rng, range.start as u128, range.end as u128) as u16
    }

    /// A number inside `range`, which must not be empty.
    pub fn next_range_u32(&mut self, range: Range<u32>) -> (r: u32)
        requires
            range.start < range.end,
        ensures
            range.start <= r < range.end,
    {
        gen_range_u128(&mut self.rng, range.start as u128, range.end as u128) as u32
    }

    /// A number inside `range`, which must not be empty.
    pub fn next_range_u64(&mut self, range: Range<u64>) -> (r: u64)
        requires
            range.start < range.end,
        ensures
            range.start <= r < range.end,
    {
        gen_range_u128(&mut self.rng, range.start as u128, range.end as u128) as u64
    }

    /// A number inside `range`, which must not be empty.
    pub fn next_range_u128(&mut self, range: Range<u128>) -> (r: u128)
        requires
            range.start < range.end,
        ensures
            range.start <= r < range.end,
    {
        gen_range_u128(&mut self.rng, range.start as u128, range.end as u128) as u128
    }

    /// A number inside `range`, which must not be empty.
    pub fn next_range_usize(&mut self, range: Range<usize>) -> (r: usize)
        requires
            range.start < range.end,
        ensures
            range.start <= r < range.end,
    {
        gen_range_u128(&mut self.rng, range.start as u128, range.end as u128) as usize
    }

    /// A number inside `range`, which must not be empty.
    pub fn next_range_i8(&mut self, range: Range<i8>) -> (r: i8)
        requires
            range.start < range.end,
        ensures
            range.start <= r < range.end,
    {
        gen_range_i128(&mut self.rng, range.start as i128, range.end as i128) as i8
    }

    /// A number inside `range`, which must not be empty.
    pub fn next_range_i16(&mut self, range: Range<i16>) -> (r: i16)
        requires
            range.start < range.end,
        ensures
            range.start <= r < range.end,
    {
        gen_range_i128(&mut self.rng, range.start as i128, range.end as i128) as i16
    }

    /// A number inside `range`, which must not be empty.
    pub fn next_range_i32(&mut self, range: Range<i32>) -> (r: i32)
        requires
            range.start < range.end,
        ensures
            range.start <= r < range.end,
    {
        gen_range_i128(&mut self.rng, range.start as i128, range.end as i128) as i32
    }

    /// A number inside `range`, which must not be empty.
    pub fn next_range_i64(&mut self, range: Range<i64>) -> (r: i64)
        requires
            range.start < range.end,
        ensures
            range.start <= r < range.end,
    {
        gen_range_i128(&mut self.rng, range.start as i128, range.end as i128) as i64
    }

    /// A number inside `range`, which must not be empty.
    pub fn next_range_i128(&mut self, range: Range<i128>) -> (r: i128)
        requires
            range.start < range.end,
        ensures
            range.start <= r < range.end,
    {
        gen_range_i128(&mut self.rng, range.start as i128, range.end as i128) as i128
    }

    /// A number inside `range`, which must not be empty.
    pub fn next_range_isize(&mut self, range: Range<isize>) -> (r: isize)
        requires
            range.start < range.end,
        ensures
            range.start <= r < range.end,
    {
        gen_range_i128(&mut self.rng, range.start as i128, range.end as i128) as isize
    }
}

/// Each character of `s` is one of `chars`.
pub open spec fn drawn_from(s: Seq<char>, chars: Seq<char>) -> bool {
    forall|i: int| 0 <= i < s.len() ==> chars.contains(#[trigger] s[i])
}

/// Random text of `length` characters, each picked from `chars`.
pub fn next(length: usize, chars: Vec<char>) -> (r: String)
    requires
        0 < chars@.len(),
        0 < length,
    ensures
        r@.len() == length,
        drawn_from(r@, chars@),
{
    let num_chars = chars.len();
    let mut r = Random::new_thread_local();
    let mut out: Vec<char> = Vec::new();
    let mut i: usize = 0;
    while i < length
        invariant
            num_chars == chars@.len(),
            0 < num_chars,
            i <= length,
            out@.len() == i,
            drawn_from(out@, chars@),
        decreases length - i,
    {
        let k = r.next_range_usize(0..num_chars);
        out.push(chars[k]);
        assert(chars@.contains(out@[i as int]));
        i = i + 1;
    }
    string_of(out.as_slice())
}

/// The characters `lo` to `hi`, both included.
fn ascii_range(v: &mut Vec<char>, lo: u8, hi: u8)
    requires
        lo <= hi < 128,
    ensures
        final(v)@.len() == old(v)@.len() + (hi - lo + 1),
        forall|j: int| 0 <= j < old(v)@.len() ==> final(v)@[j] == old(v)@[j],
        forall|j: int| 0 <= j <= hi - lo ==> #[trigger] final(v)@[old(v)@.len() + j] == ((lo + j) as u8) as char,
{
    let mut b: u16 = lo as u16;
    while b <= hi as u16
        invariant
            lo <= b <= hi + 1,
            hi < 128,
            v@.len() == old(v)@.len() + (b - lo),
            forall|j: int| 0 <= j < old(v)@.len() ==> v@[j] == old(v)@[j],
            forall|j: int| 0 <= j < b - lo ==> #[trigger] v@[old(v)@.len() + j] == ((lo + j) as u8) as char,
        decreases hi + 1 - b,
    {
        v.push((b as u8) as char);
        b = b + 1;
    }
}

/// Every character drawn from a set whose members all satisfy `p` satisfies `p`.
proof fn lemma_drawn_class(s: Seq<char>, chars: Seq<char>, p: spec_fn(char) -> bool)
    requires
        drawn_from(s, chars),
        forall|j: int| 0 <= j < chars.len() ==> p(#[trigger] chars[j]),
    ensures
        forall|i: int| 0 <= i < s.len() ==> p(#[trigger] s[i]),
{
    assert forall|i: int| 0 <= i < s.len() implies p(#[trigger] s[i]) by {
        assert(chars.contains(s[i]));
        let j = choose|j: int| 0 <= j < chars.len() && chars[j] == s[i];
        assert(p(chars[j]));
    }
}

pub open spec fn is_ascii_digit(c: char) -> bool {
    '0' <= c && c <= '9'
}

pub open spec fn is_ascii_upper(c: char) -> bool {
    'A' <= c && c <= 'Z'
}

pub open spec fn is_ascii_lower(c: char) -> bool {
    'a' <= c && c <= 'z'
}

/// `chars` extended with `lo..=hi`, each of which satisfies `p`.
fn add_range(chars: &mut Vec<char>, lo: u8, hi: u8, p: Ghost<spec_fn(char) -> bool>)
    requires
        lo <= hi < 128,
        forall|j: int| 0 <= j < old(chars)@.len() ==> (p@)(#[trigger] old(chars)@[j]),
        forall|b: u8| lo <= b <= hi ==> (p@)(#[trigger] (b as char)),
    ensures
        final(chars)@.len() > old(chars)@.len(),
        forall|j: int| 0 <= j < final(chars)@.len() ==> (p@)(#[trigger] final(chars)@[j]),
{
    let ghost n = chars@.len();
    ascii_range(chars, lo, hi);
    assert forall|j: int| 0 <= j < chars@.len() implies (p@)(#[trigger] chars@[j]) by {
        if j >= n {
            let b = (lo + (j - n)) as u8;
            assert(chars@[n + (j - n)] == b as char);
            assert(lo <= b <= hi);
        }
    }
}

/// Random text of `length` ASCII digits.
pub fn next_numeric(length: usize) -> (r: String)
    requires
        0 < length,
    ensures
        r@.len() == length,
        forall|i: int| 0 <= i < r@.len() ==> is_ascii_digit(#[trigger] r@[i]),
{
    let ghost p = |c: char| is_ascii_digit(c);
    let mut chars: Vec<char> = Vec::new();
    add_range(&mut chars, 48, 57, Ghost(p));
    let r = next(length, chars);
    proof {
        lemma_drawn_class(r@, chars@, p);
    }
    r
}

pub open spec fn is_hex_upper(c: char) -> bool {
    is_ascii_digit(c) || ('A' <= c && c <= 'F')
}

pub open spec fn is_hex_lower(c: char) -> bool {
    is_ascii_digit(c) || ('a' <= c && c <= 'f')
}

pub open spec fn is_ascii_letter(c: char) -> bool {
    is_ascii_lower(c) || is_ascii_upper(c)
}

pub open spec fn is_digit_or_upper(c: char) -> bool {
    is_ascii_digit(c) || is_ascii_upper(c)
}

pub open spec fn is_digit_or_lower(c: char) -> bool {
    is_ascii_digit(c) || is_ascii_lower(c)
}

pub open spec fn is_digit_or_letter(c: char) -> bool {
    is_ascii_digit(c) || is_ascii_lower(c) || is_ascii_upper(c)
}

/// Random text of `length` hex digits in upper case (`0`-`9`, `A`-`F`).
pub fn next_hex_upper(length: usize) -> (r: String)
    requires
        0 < length,
    ensures
        r@.len() == length,
        forall|i: int| 0 <= i < r@.len() ==> is_hex_upper(#[trigger] r@[i]),
{
    let ghost p = |c: char| is_hex_upper(c);
    let mut chars: Vec<char> = Vec::new();
    add_range(&mut chars, 48, 57, Ghost(p));
    add_range(&mut chars, 65, 70, Ghost(p));
    let r = next(length, chars);
    proof {
        lemma_drawn_class(r@, chars@, p);
    }
    r
}

/// Random text of `length` hex digits in lower case (`0`-`9`, `a`-`f`).
pub fn next_hex_lower(length: usize) -> (r: String)
    requires
        0 < length,
    ensures
        r@.len() == length,
        forall|i: int| 0 <= i < r@.len() ==> is_hex_lower(#[trigger] r@[i]),
{
    let ghost p = |c: char| is_hex_lower(c);
    let mut chars: Vec<char> = Vec::new();
    add_range(&mut chars, 48, 57, Ghost(p));
    add_range(&mut chars, 97, 102, Ghost(p));
    let r = next(length, chars);
    proof {
        lemma_drawn_class(r@, chars@, p);
    }
    r
}

/// Random text of `length` upper-case ASCII letters.
pub fn next_alphabet_upper(length: usize) -> (r: String)
    requires
        0 < length,
    ensures
        r@.len() == length,
        forall|i: int| 0 <= i < r@.len() ==> is_ascii_upper(#[trigger] r@[i]),
{
    let ghost p = |c: char| is_ascii_upper(c);
    let mut chars: Vec<char> = Vec::new();
    add_range(&mut chars, 65, 90, Ghost(p));
    let r = next(length, chars);
    proof {
        lemma_drawn_class(r@, chars@, p);
    }
    r
}

/// Random text of `length` lower-case ASCII letters.
pub fn next_alphabet_lower(length: usize) -> (r: String)
    requires
        0 < length,
    ensures
        r@.len() == length,
        forall|i: int| 0 <= i < r@.len() ==> is_ascii_lower(#[trigger] r@[i]),
{
    let ghost p = |c: char| is_ascii_lower(c);
    let mut chars: Vec<char> = Vec::new();
    add_range(&mut chars, 97, 122, Ghost(p));
    let r = next(length, chars);
    proof {
        lemma_drawn_class(r@, chars@, p);
    }
    r
}

/// Random text of `length` ASCII letters of either case.
pub fn next_alphabet_mixed(length: usize) -> (r: String)
    requires
        0 < length,
    ensures
        r@.len() == length,
        forall|i: int| 0 <= i < r@.len() ==> is_ascii_letter(#[trigger] r@[i]),
{
    let ghost p = |c: char| is_ascii_letter(c);
    let mut chars: Vec<char> = Vec::new();
    add_range(&mut chars, 97, 122, Ghost(p));
    add_range(&mut chars, 65, 90, Ghost(p));
    let r = next(length, chars);
    proof {
        lemma_drawn_class(r@, chars@, p);
    }
    r
}

/// Random text of `length` ASCII digits and upper-case letters.
pub fn next_alpha_numeric_upper(length: usize) -> (r: String)
    requires
        0 < length,
    ensures
        r@.len() == length,
        forall|i: int| 0 <= i < r@.len() ==> is_digit_or_upper(#[trigger] r@[i]),
{
    let ghost p = |c: char| is_digit_or_upper(c);
    let mut chars: Vec<char> = Vec::new();
    add_range(&mut chars, 48, 57, Ghost(p));
    add_range(&mut chars, 65, 90, Ghost(p));
    let r = next(length, chars);
    proof {
        lemma_drawn_class(r@, chars@, p);
    }
    r
}

/// Random text of `length` ASCII digits and lower-case letters.
pub fn next_alpha_numeric_lower(length: usize) -> (r: String)
    requires
        0 < length,
    ensures
        r@.len() == length,
        forall|i: int| 0 <= i < r@.len() ==> is_digit_or_lower(#[trigger] r@[i]),
{
    let ghost p = |c: char| is_digit_or_lower(c);
    let mut chars: Vec<char> = Vec::new();
    add_range(&mut chars, 48, 57, Ghost(p));
    add_range(&mut chars, 97, 122, Ghost(p));
    let r = next(length, chars);
    proof {
        lemma_drawn_class(r@, chars@, p);
    }
    r
}

/// Random text of `length` ASCII digits and letters of either case.
pub fn next_alpha_numeric_mixed(length: usize) -> (r: String)
    requires
        0 < length,
    ensures
        r@.len() == length,
        forall|i: int| 0 <= i < r@.len() ==> is_digit_or_letter(#[trigger] r@[i]),
{
    let ghost p = |c: char| is_digit_or_letter(c);
    let mut chars: Vec<char> = Vec::new();
    add_range(&mut chars, 48, 57, Ghost(p));
    add_range(&mut chars, 97, 122, Ghost(p));
    add_range(&mut chars, 65, 90, Ghost(p));
    let r = next(length, chars);
    proof {
        lemma_drawn_class(r@, chars@, p);
    }
    r
}

} // verus!
