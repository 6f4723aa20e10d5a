//! Hexadecimal text: reading byte pairs and writing bytes and integers as hex digits.
use vstd::prelude::*;
use crate::byte::{be_bytes, Bytes};
use crate::essential::{chars_of, push_char};

verus! {

/// Why hex text could not be read.
#[derive(Debug, Clone, Copy, PartialEq, Eq, Structural)]
pub enum ParseError {
    /// A character that is not a hex digit.
    InvalidChar,
    /// An odd number of characters.
    LackOfPair,
}

pub open spec fn is_hex_char(c: char) -> bool {
    ('0' <= c && c <= '9') || ('a' <= c && c <= 'f') || ('A' <= c && c <= 'F')
}

/// The value of a hex digit, either case.
pub open spec fn hex_value(c: char) -> nat {
    if '0' <= c && c <= '9' {
        ((c as int) - ('0' as int)) as nat
    } else if 'a' <= c && c <= 'f' {
        ((c as int) - ('a' as int) + 10) as nat
    } else {
        ((c as int) - ('A' as int) + 10) as nat
    }
}

/// Hex digit `d` (below 16) in lower or upper case.
pub open spec fn hex_digit(d: nat, upper: bool) -> char {
    if upper {
        seq!['0', '1', '2', '3', '4', '5', '6', '7', '8', '9', 'A', 'B', 'C', 'D', 'E', 'F'][d as int]
    } else {
        seq!['0', '1', '2', '3', '4', '5', '6', '7', '8', '9', 'a', 'b', 'c', 'd', 'e', 'f'][d as int]
    }
}

/// Two hex digits per byte, high nibble first.
pub open spec fn hex_text(b: Seq<u8>, upper: bool) -> Seq<char>
    decreases b.len(),
{
    if b.len() == 0 {
        Seq::empty()
    } else {
        hex_text(b.drop_last(), upper) + seq![
            hex_digit((b.last() / 16) as nat, upper),
            hex_digit((b.last() % 16) as nat, upper),
        ]
    }
}

/// The bytes that hex text spells, two digits per byte.
pub open spec fn hex_bytes(s: Seq<char>) -> Seq<u8> {
    Seq::new(
        s.len() / 2,
        |i: int| (hex_value(s[2 * i]) * 16 + hex_value(s[2 * i + 1])) as u8,
    )
}

/// What reading hex text gives.
pub open spec fn hex_parse(s: Seq<char>) -> Result<Seq<u8>, ParseError> {
    if s.len() % 2 == 1 {
        Err(ParseError::LackOfPair)
    } else if exists|i: int| 0 <= i < s.len() && !is_hex_char(#[trigger] s[i]) {
        Err(ParseError::InvalidChar)
    } else {
        Ok(hex_bytes(s))
    }
}

/// The value of one hex digit.
pub fn parse_hex(c: char) -> (r: Result<u8, ParseError>)
    ensures
        r is Ok <==> is_hex_char(c),
        r is Ok ==> r->Ok_0 == hex_value(c),
        r is Err ==> r->Err_0 == ParseError::InvalidChar,
{
    if '0' <= c && c <= '9' {
        Ok(((c as u32) - ('0' as u32)) as u8)
    } else if 'a' <= c && c <= 'f' {
        Ok(((c as u32) - ('a' as u32) + 10) as u8)
    } else if 'A' <= c && c <= 'F' {
        Ok(((c as u32) - ('A' as u32) + 10) as u8)
    } else {
        Err(ParseError::InvalidChar)
    }
}

/// The byte that two hex digits spell, high nibble first.
pub fn parse_hex_pair(c0: char, c1: char) -> (r: Result<u8, ParseError>)
    ensures
        r is Ok <==> is_hex_char(c0) && is_hex_char(c1),
        r is Ok ==> r->Ok_0 == hex_value(c0) * 16 + hex_value(c1),
        r is Err ==> r->Err_0 == ParseError::InvalidChar,
{
    let d0 = parse_hex(c0)?;
    let d1 = parse_hex(c1)?;
    Ok(d0 * 16 + d1)
}

/// Reads hex text, two digits per byte.
pub fn parse(text: &str) -> (r: Result<Vec<u8>, ParseError>)
    ensures
        r is Ok <==> hex_parse(text@) is Ok,
        r is Ok ==> r->Ok_0@ == hex_parse(text@)->Ok_0,
        r is Err ==> r->Err_0 == hex_parse(text@)->Err_0,
{
    let cs = chars_of(text);
    if cs.len() % 2 == 1 {
        return Err(ParseError::LackOfPair);
    }
    let mut out: Vec<u8> = Vec::new();
    let mut i: usize = 0;
    while i < cs.len() / 2
        invariant
            cs@ == text@,
            cs@.len() % 2 == 0,
            i <= cs@.len() / 2,
            out@ == hex_bytes(cs@).take(i as int),
            forall|j: int| 0 <= j < 2 * i ==> is_hex_char(#[trigger] cs@[j]),
        decreases cs@.len() / 2 - i,
    {
        match parse_hex_pair(cs[2 * i], cs[2 * i + 1]) {
            Ok(b) => {
                out.push(b);
                assert(out@ =~= hex_bytes(cs@).take(i + 1));
            },
            Err(e) => {
                return Err(e);
            },
        }
        i = i + 1;
    }
    assert(out@ =~= hex_bytes(cs@));
    Ok(out)
}

/// The high and low nibble of `x`.
fn to_indices(x: u8) -> (r: (usize, usize))
    ensures
        r.0 == x / 16,
        r.1 == x % 16,
{
    ((x / 16) as usize, (x % 16) as usize)
}

fn hex_char(d: usize, upper: bool) -> (c: char)
    requires
        d < 16,
    ensures
        c == hex_digit(d as nat, upper),
{
    let lower_digits = ['0', '1', '2', '3', '4', '5', '6', '7', '8', '9', 'a', 'b', 'c', 'd', 'e', 'f'];
    let upper_digits = ['0', '1', '2', '3', '4', '5', '6', '7', '8', '9', 'A', 'B', 'C', 'D', 'E', 'F'];
    assert(lower_digits@ =~= seq!['0', '1', '2', '3', '4', '5', '6', '7', '8', '9', 'a', 'b', 'c', 'd', 'e', 'f']);
    assert(upper_digits@ =~= seq!['0', '1', '2', '3', '4', '5', '6', '7', '8', '9', 'A', 'B', 'C', 'D', 'E', 'F']);
    if upper {
        upper_digits[d]
    } else {
        lower_digits[d]
    }
}

/// The two lower-case hex digits of `x`.
fn to_hex_lower(x: u8) -> (r: Vec<char>)
    ensures
        r@ == seq![hex_digit((x / 16) as nat, false), hex_digit((x % 16) as nat, false)],
{
    let (h, l) = to_indices(x);
    vec![hex_char(h, false), hex_char(l, false)]
}

/// The two upper-case hex digits of `x`.
fn to_hex_upper(x: u8) -> (r: Vec<char>)
    ensures
        r@ == seq![hex_digit((x / 16) as nat, true), hex_digit((x % 16) as nat, true)],
{
    let (h, l) = to_indices(x);
    vec![hex_char(h, true), hex_char(l, true)]
}

/// The bytes of `b` as hex text.
fn hex_of_slice(b: &[u8], upper: bool) -> (r: String)
    ensures
        r@ == hex_text(b@, upper),
{
    let mut r = String::new();
    let mut i: usize = 0;
    while i < b.len()
        invariant
            i <= b@.len(),
            r@ == hex_text(b@.take(i as int), upper),
        decreases b@.len() - i,
    {
        let pair = if upper { to_hex_upper(b[i]) } else { to_hex_lower(b[i]) };
        assert(b@.take(i + 1).drop_last() =~= b@.take(i as int));
        assert(b@.take(i + 1).last() == b@[i as int]);
        push_char(&mut r, pair[0]);
        push_char(&mut r, pair[1]);
        assert(r@ =~= hex_text(b@.take(i + 1), upper));
        i = i + 1;
    }
    assert(b@.take(b@.len() as int) =~= b@);
    r
}

/// Hex text of a value's bytes, most significant first.
pub trait Hex<T: ?Sized> {
    spec fn hex_view(&self) -> Seq<u8>;

    /// Lower-case hex text like `01ab`.
    fn to_hex_lower(&self) -> (r: String)
        ensures
            r@ == hex_text(self.hex_view(), false),
    ;

    /// Upper-case hex text like `01AB`.
    fn to_hex_upper(&self) -> (r: String)
        ensures
            r@ == hex_text(self.hex_view(), true),
    ;
}

impl Hex<u8> for u8 {
    open spec fn hex_view(&self) -> Seq<u8> {
        seq![*self]
    }

    fn to_hex_lower(&self) -> (r: String) {
        let b = vec![*self];
        assert(b@ =~= seq![*self]);
        hex_of_slice(b.as_slice(), false)
    }

    fn to_hex_upper(&self) -> (r: String) {
        let b = vec![*self];
        assert(b@ =~= seq![*self]);
        hex_of_slice(b.as_slice(), true)
    }
}

impl Hex<Vec<u8>> for Vec<u8> {
    open spec fn hex_view(&self) -> Seq<u8> {
        self@
    }

    fn to_hex_lower(&self) -> (r: String) {
        hex_of_slice(self.as_slice(), false)
    }

    fn to_hex_upper(&self) -> (r: String) {
        hex_of_slice(self.as_slice(), true)
    }
}

impl Hex<[u8]> for [u8] {
    open spec fn hex_view(&self) -> Seq<u8> {
        self@
    }

    fn to_hex_lower(&self) -> (r: String) {
        hex_of_slice(self, false)
    }

    fn to_hex_upper(&self) -> (r: String) {
        hex_of_slice(self, true)
    }
}

impl Hex<u16> for u16 {
    open spec fn hex_view(&self) -> Seq<u8> {
        be_bytes(*self as nat, 2)
    }

    fn to_hex_lower(&self) -> (r: String) {
        hex_of_slice(self.as_bytes().as_slice(), false)
    }

    fn to_hex_upper(&self) -> (r: String) {
        hex_of_slice(self.as_bytes().as_slice(), true)
    }
}

impl Hex<u32> for u32 {
    open spec fn hex_view(&self) -> Seq<u8> {
        be_bytes(*self as nat, 4)
    }

    fn to_hex_lower(&self) -> (r: String) {
        hex_of_slice(self.as_bytes().as_slice(), false)
    }

    fn to_hex_upper(&self) -> (r: String) {
        hex_of_slice(self.as_bytes().as_slice(), true)
    }
}

impl Hex<u64> for u64 {
    open spec fn hex_view(&self) -> Seq<u8> {
        be_bytes(*self as nat, 8)
    }

    fn to_hex_lower(&self) -> (r: String) {
        hex_of_slice(self.as_bytes().as_slice(), false)
    }

    fn to_hex_upper(&self) -> (r: String) {
        hex_of_slice(self.as_bytes().as_slice(), true)
    }
}

impl Hex<u128> for u128 {
    open spec fn hex_view(&self) -> Seq<u8> {
        be_bytes(*self as nat, 16)
    }

    fn to_hex_lower(&self) -> (r: String) {
        hex_of_slice(self.as_bytes().as_slice(), false)
    }

    fn to_hex_upper(&self) -> (r: String) {
        hex_of_slice(self.as_bytes().as_slice(), true)
    }
}

} // verus!
