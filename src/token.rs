//! Splitting text into ASCII alphanumeric tokens at case changes, and ASCII character tests.
use vstd::prelude::*;
use crate::essential::{chars_of, string_of};

verus! {

pub open spec fn is_upper(c: char) -> bool {
    'A' <= c && c <= 'Z'
}

pub open spec fn is_lower(c: char) -> bool {
    'a' <= c && c <= 'z'
}

pub open spec fn is_digit(c: char) -> bool {
    '0' <= c && c <= '9'
}

pub open spec fn is_alnum(c: char) -> bool {
    is_upper(c) || is_lower(c) || is_digit(c)
}

/// The rank of an alphanumeric character inside a token: upper case, then lower case, then
/// digits.
pub open spec fn rank(c: char) -> nat {
    if is_upper(c) {
        1
    } else if is_lower(c) {
        2
    } else {
        3
    }
}

/// Tokens found so far, the token being read, and the rank of its last character.
pub struct TokenState {
    pub done: Seq<Seq<char>>,
    pub current: Seq<char>,
    pub last_rank: nat,
}

/// Reads one more character. A token matches `[A-Z]*[a-z]*[0-9]*`: an alphanumeric character
/// extends the current token when its rank is not below the last one, and starts a new token
/// otherwise; any other character ends the current token.
pub open spec fn token_step(st: TokenState, c: char) -> TokenState {
    if !is_alnum(c) {
        TokenState {
            done: if st.current.len() > 0 { st.done.push(st.current) } else { st.done },
            current: Seq::empty(),
            last_rank: 0,
        }
    } else if st.current.len() > 0 && st.last_rank <= rank(c) {
        TokenState { done: st.done, current: st.current.push(c), last_rank: rank(c) }
    } else {
        TokenState {
            done: if st.current.len() > 0 { st.done.push(st.current) } else { st.done },
            current: seq![c],
            last_rank: rank(c),
        }
    }
}

pub open spec fn token_state(s: Seq<char>) -> TokenState
    decreases s.len(),
{
    if s.len() == 0 {
        TokenState { done: Seq::empty(), current: Seq::empty(), last_rank: 0 }
    } else {
        token_step(token_state(s.drop_last()), s.last())
    }
}

/// The tokens of `s`, in order.
pub open spec fn tokens(s: Seq<char>) -> Seq<Seq<char>> {
    let st = token_state(s);
    if st.current.len() > 0 {
        st.done.push(st.current)
    } else {
        st.done
    }
}

pub open spec fn upper_char(c: char) -> char {
    if is_lower(c) {
        (((c as u32) - 32) as u8) as char
    } else {
        c
    }
}

pub open spec fn lower_char(c: char) -> char {
    if is_upper(c) {
        (((c as u32) + 32) as u8) as char
    } else {
        c
    }
}

pub open spec fn upper_text(s: Seq<char>) -> Seq<char> {
    s.map_values(|c: char| upper_char(c))
}

pub open spec fn lower_text(s: Seq<char>) -> Seq<char> {
    s.map_values(|c: char| lower_char(c))
}

/// The first character in upper case, the rest in lower case.
pub open spec fn first_upper_text(s: Seq<char>) -> Seq<char> {
    if s.len() == 0 {
        s
    } else {
        seq![upper_char(s[0])] + lower_text(s.drop_first())
    }
}

pub open spec fn upper_all(v: Seq<Seq<char>>) -> Seq<Seq<char>> {
    v.map_values(|t: Seq<char>| upper_text(t))
}

pub open spec fn lower_all(v: Seq<Seq<char>>) -> Seq<Seq<char>> {
    v.map_values(|t: Seq<char>| lower_text(t))
}

pub open spec fn first_upper_all(v: Seq<Seq<char>>) -> Seq<Seq<char>> {
    v.map_values(|t: Seq<char>| first_upper_text(t))
}

pub open spec fn texts(v: Seq<String>) -> Seq<Seq<char>> {
    v.map_values(|s: String| s@)
}

fn rank_of(c: char) -> (r: u8)
    ensures
        is_alnum(c) ==> r == rank(c),
{
    if 'A' <= c && c <= 'Z' {
        1
    } else if 'a' <= c && c <= 'z' {
        2
    } else {
        3
    }
}

fn char_views(v: Seq<Vec<char>>) -> (r: Ghost<Seq<Seq<char>>>)
    ensures
        r@ == v.map_values(|x: Vec<char>| x@),
{
    Ghost(v.map_values(|x: Vec<char>| x@))
}

/// The tokens of `cs`.
pub fn tokenize_chars(cs: &[char]) -> (r: Vec<String>)
    ensures
        texts(r@) == tokens(cs@),
{
    let mut done: Vec<String> = Vec::new();
    let mut cur: Vec<char> = Vec::new();
    let mut last: u8 = 0;
    let mut i: usize = 0;
    assert(cs@.take(0) =~= Seq::<char>::empty());
    assert(texts(done@) =~= Seq::<Seq<char>>::empty());
    assert(cur@ =~= Seq::<char>::empty());
    while i < cs.len()
        invariant
            i <= cs@.len(),
            token_state(cs@.take(i as int)) == (TokenState {
                done: texts(done@),
                current: cur@,
                last_rank: last as nat,
            }),
        decreases cs@.len() - i,
    {
        let c = cs[i];
        assert(cs@.take(i + 1).drop_last() =~= cs@.take(i as int));
        assert(cs@.take(i + 1).last() == c);
        let alnum = ('A' <= c && c <= 'Z') || ('a' <= c && c <= 'z') || ('0' <= c && c <= '9');
        let ghost before = texts(done@);
        if !alnum {
            if cur.len() > 0 {
                let t = string_of(cur.as_slice());
                done.push(t);
                assert(texts(done@) =~= before.push(cur@));
            }
            cur = Vec::new();
            last = 0;
        } else {
            let k = rank_of(c);
            if cur.len() > 0 && last <= k {
                cur.push(c);
            } else {
                if cur.len() > 0 {
                    let t = string_of(cur.as_slice());
                    done.push(t);
                    assert(texts(done@) =~= before.push(cur@));
                }
                cur = Vec::new();
                cur.push(c);
                assert(cur@ =~= seq![c]);
            }
            last = k;
        }
        i = i + 1;
    }
    assert(cs@.take(cs@.len() as int) =~= cs@);
    if cur.len() > 0 {
        let ghost before = texts(done@);
        let t = string_of(cur.as_slice());
        done.push(t);
        assert(texts(done@) =~= before.push(cur@));
    }
    done
}

fn upper_of(c: char) -> (r: char)
    ensures
        r == upper_char(c),
{
    if 'a' <= c && c <= 'z' {
        (((c as u32) - 32) as u8) as char
    } else {
        c
    }
}

fn lower_of(c: char) -> (r: char)
    ensures
        r == lower_char(c),
{
    if 'A' <= c && c <= 'Z' {
        (((c as u32) + 32) as u8) as char
    } else {
        c
    }
}

/// `s` with every character passed through upper- or lower-casing, the first one set apart
/// when `first_upper`.
fn recase(s: &str, upper: bool, first_upper: bool) -> (r: String)
    ensures
        r@ == if first_upper {
            first_upper_text(s@)
        } else if upper {
            upper_text(s@)
        } else {
            lower_text(s@)
        },
{
    let cs = chars_of(s);
    let mut out: Vec<char> = Vec::new();
    let mut i: usize = 0;
    while i < cs.len()
        invariant
            i <= cs@.len(),
            cs@ == s@,
            out@.len() == i,
            forall|j: int| 0 <= j < i ==> #[trigger] out@[j] == if first_upper && j == 0 {
                upper_char(cs@[j])
            } else if first_upper {
                lower_char(cs@[j])
            } else if upper {
                upper_char(cs@[j])
            } else {
                lower_char(cs@[j])
            },
        decreases cs@.len() - i,
    {
        let c = cs[i];
        let d = if first_upper && i == 0 {
            upper_of(c)
        } else if first_upper {
            lower_of(c)
        } else if upper {
            upper_of(c)
        } else {
            lower_of(c)
        };
        out.push(d);
        i = i + 1;
    }
    if first_upper && cs.len() > 0 {
        assert(out@ =~= seq![upper_char(s@[0])] + lower_text(s@.drop_first()));
    } else if first_upper {
        assert(out@ =~= s@);
    } else if upper {
        assert(out@ =~= upper_text(s@));
    } else {
        assert(out@ =~= lower_text(s@));
    }
    string_of(out.as_slice())
}

/// Each token recased.
fn recase_all(v: &Vec<String>, upper: bool, first_upper: bool) -> (r: Vec<String>)
    ensures
        texts(r@) == texts(v@).map_values(
            |t: Seq<char>|
                if first_upper {
                    first_upper_text(t)
                } else if upper {
                    upper_text(t)
                } else {
                    lower_text(t)
                },
        ),
{
    let mut out: Vec<String> = Vec::new();
    let mut i: usize = 0;
    while i < v.len()
        invariant
            i <= v@.len(),
            out@.len() == i,
            forall|j: int| 0 <= j < i ==> #[trigger] out@[j]@ == if first_upper {
                first_upper_text(v@[j]@)
            } else if upper {
                upper_text(v@[j]@)
            } else {
                lower_text(v@[j]@)
            },
        decreases v@.len() - i,
    {
        let t = recase(v[i].as_str(), upper, first_upper);
        out.push(t);
        i = i + 1;
    }
    assert(texts(out@) =~= texts(v@).map_values(
        |t: Seq<char>|
            if first_upper {
                first_upper_text(t)
            } else if upper {
                upper_text(t)
            } else {
                lower_text(t)
            },
    ));
    out
}

/// Splitting into ASCII alphanumeric tokens.
pub trait AsciiTokenizer {
    spec fn text_view(&self) -> Seq<char>;

    /// Tokens matching `[A-Z]*[a-z]*[0-9]*`, split at case changes; other characters only
    /// separate tokens. `"Powered by RustLang version1.65.0."` gives `Powered`, `by`, `Rust`,
    /// `Lang`, `version1`, `65` and `0`.
    fn tokenize_ascii_alpha_num(&self) -> (r: Vec<String>)
        ensures
            texts(r@) == tokens(self.text_view()),
    ;

    /// The tokens in upper case.
    fn tokenize_ascii_alpha_num_to_capital(&self) -> (r: Vec<String>)
        ensures
            texts(r@) == upper_all(tokens(self.text_view())),
    ;

    /// The tokens with the first character in upper case and the rest in lower case.
    fn tokenize_ascii_alpha_num_to_first_upper(&self) -> (r: Vec<String>)
        ensures
            texts(r@) == first_upper_all(tokens(self.text_view())),
    ;

    /// The tokens in lower case.
    fn tokenize_ascii_alpha_num_to_lower(&self) -> (r: Vec<String>)
        ensures
            texts(r@) == lower_all(tokens(self.text_view())),
    ;
}

impl AsciiTokenizer for str {
    open spec fn text_view(&self) -> Seq<char> {
        self@
    }

    fn tokenize_ascii_alpha_num(&self) -> (r: Vec<String>) {
        let cs = chars_of(self);
        tokenize_chars(cs.as_slice())
    }

    fn tokenize_ascii_alpha_num_to_capital(&self) -> (r: Vec<String>) {
        let t = self.tokenize_ascii_alpha_num();
        let r = recase_all(&t, true, false);
        assert(texts(r@) =~= upper_all(tokens(self@)));
        r
    }

    fn tokenize_ascii_alpha_num_to_first_upper(&self) -> (r: Vec<String>) {
        let t = self.tokenize_ascii_alpha_num();
        let r = recase_all(&t, false, true);
        assert(texts(r@) =~= first_upper_all(tokens(self@)));
        r
    }

    fn tokenize_ascii_alpha_num_to_lower(&self) -> (r: Vec<String>) {
        let t = self.tokenize_ascii_alpha_num();
        let r = recase_all(&t, false, false);
        assert(texts(r@) =~= lower_all(tokens(self@)));
        r
    }
}

/// Whether every character is of an ASCII class; the empty text passes.
pub trait AsciiMatcher {
    spec fn matcher_view(&self) -> Seq<char>;

    fn is_ascii_numeric(&self) -> (r: bool)
        ensures
            r == forall|i: int| 0 <= i < self.matcher_view().len() ==> is_digit(#[trigger] self.matcher_view()[i]),
    ;

    fn is_ascii_alphabetic(&self) -> (r: bool)
        ensures
            r == forall|i: int|
                0 <= i < self.matcher_view().len() ==> is_upper(#[trigger] self.matcher_view()[i])
                    || is_lower(self.matcher_view()[i]),
    ;

    fn is_ascii_alphanumeric(&self) -> (r: bool)
        ensures
            r == forall|i: int| 0 <= i < self.matcher_view().len() ==> is_alnum(#[trigger] self.matcher_view()[i]),
    ;
}

/// Whether every character of `cs` satisfies the class numbered `class`: digits (0),
/// letters (1), or both (2).
fn all_in(cs: &[char], class: u8) -> (r: bool)
    ensures
        class == 0 ==> (r == forall|i: int| 0 <= i < cs@.len() ==> is_digit(#[trigger] cs@[i])),
        class == 1 ==> (r == forall|i: int|
            0 <= i < cs@.len() ==> is_upper(#[trigger] cs@[i]) || is_lower(cs@[i])),
        class == 2 ==> (r == forall|i: int| 0 <= i < cs@.len() ==> is_alnum(#[trigger] cs@[i])),
{
    let mut i: usize = 0;
    while i < cs.len()
        invariant
            i <= cs@.len(),
            class == 0 ==> forall|j: int| 0 <= j < i ==> is_digit(#[trigger] cs@[j]),
            class == 1 ==> forall|j: int| 0 <= j < i ==> is_upper(#[trigger] cs@[j]) || is_lower(cs@[j]),
            class == 2 ==> forall|j: int| 0 <= j < i ==> is_alnum(#[trigger] cs@[j]),
        decreases cs@.len() - i,
    {
        let c = cs[i];
        let digit = '0' <= c && c <= '9';
        let letter = ('A' <= c && c <= 'Z') || ('a' <= c && c <= 'z');
        let ok = if class == 0 {
            digit
        } else if class == 1 {
            letter
        } else {
            digit || letter
        };
        if !ok {
            return false;
        }
        i = i + 1;
    }
    true
}

impl AsciiMatcher for str {
    open spec fn matcher_view(&self) -> Seq<char> {
        self@
    }

    fn is_ascii_numeric(&self) -> (r: bool) {
        let cs = chars_of(self);
        let sl = cs.as_slice();
        assert(self.matcher_view() == sl@);
        all_in(sl, 0)
    }

    fn is_ascii_alphabetic(&self) -> (r: bool) {
        let cs = chars_of(self);
        let sl = cs.as_slice();
        assert(self.matcher_view() == sl@);
        all_in(sl, 1)
    }

    fn is_ascii_alphanumeric(&self) -> (r: bool) {
        let cs = chars_of(self);
        let sl = cs.as_slice();
        assert(self.matcher_view() == sl@);
        all_in(sl, 2)
    }
}

} // verus!
