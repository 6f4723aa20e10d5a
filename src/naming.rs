//! Naming styles built from ASCII alphanumeric tokens: camelCase, kebab-case, snake_case.
use vstd::prelude::*;
use crate::essential::chars_of;
use crate::token::{first_upper_all, lower_all, lower_char, texts, tokens, upper_all, AsciiTokenizer};

verus! {

/// The parts with `sep` between each two.
pub open spec fn join_with(parts: Seq<Seq<char>>, sep: Seq<char>) -> Seq<char>
    decreases parts.len(),
{
    if parts.len() == 0 {
        Seq::empty()
    } else if parts.len() == 1 {
        parts[0]
    } else {
        join_with(parts.drop_last(), sep) + sep + parts.last()
    }
}

/// `s` with its first character in lower case.
pub open spec fn lower_first(s: Seq<char>) -> Seq<char> {
    if s.len() == 0 {
        s
    } else {
        seq![lower_char(s[0])] + s.drop_first()
    }
}

fn join_texts(parts: &Vec<String>, sep: &str) -> (r: String)
    ensures
        r@ == join_with(texts(parts@), sep@),
{
    let ghost v = texts(parts@);
    let mut r = String::new();
    let mut i: usize = 0;
    while i < parts.len()
        invariant
            i <= parts@.len(),
            v == texts(parts@),
            r@ == join_with(v.take(i as int), sep@),
        decreases parts@.len() - i,
    {
        assert(v.take(i + 1).drop_last() =~= v.take(i as int));
        if i > 0 {
            r.append(sep);
        } else {
            assert(v.take(1) =~= seq![v[0]]);
        }
        r.append(parts[i].as_str());
        i = i + 1;
    }
    assert(v.take(parts@.len() as int) =~= v);
    r
}

/// Naming styles of ASCII alphanumeric tokens; other characters only separate tokens, and
/// text without such tokens gives the empty string.
pub trait Naming {
    spec fn name_view(&self) -> Seq<char>;

    /// CamelCase with an upper-case first character: `"camel case"` gives `CamelCase`.
    fn to_ascii_camel_upper(&self) -> (r: String)
        ensures
            r@ == join_with(first_upper_all(tokens(self.name_view())), Seq::empty()),
    ;

    /// camelCase with a lower-case first character: `"camel case"` gives `camelCase`.
    fn to_ascii_camel_lower(&self) -> (r: String)
        ensures
            r@ == lower_first(
                join_with(first_upper_all(tokens(self.name_view())), Seq::empty()),
            ),
    ;

    /// KEBAB-CASE in capitals: `"Kebab case"` gives `KEBAB-CASE`.
    fn to_ascii_kebab_capital(&self) -> (r: String)
        ensures
            r@ == join_with(upper_all(tokens(self.name_view())), seq!['-']),
    ;

    /// Kebab-Case with capitalised tokens: `"kebab case"` gives `Kebab-Case`.
    fn to_ascii_kebab_upper(&self) -> (r: String)
        ensures
            r@ == join_with(first_upper_all(tokens(self.name_view())), seq!['-']),
    ;

    /// kebab-case in lower case: `"Kebab case"` gives `kebab-case`.
    fn to_ascii_kebab_lower(&self) -> (r: String)
        ensures
            r@ == join_with(lower_all(tokens(self.name_view())), seq!['-']),
    ;

    /// SNAKE_CASE in capitals: `"Snake case"` gives `SNAKE_CASE`.
    fn to_ascii_snake_capital(&self) -> (r: String)
        ensures
            r@ == join_with(upper_all(tokens(self.name_view())), seq!['_']),
    ;

    /// Snake_Case with capitalised tokens: `"snake case"` gives `Snake_Case`.
    fn to_ascii_snake_upper(&self) -> (r: String)
        ensures
            r@ == join_with(first_upper_all(tokens(self.name_view())), seq!['_']),
    ;

    /// snake_case in lower case: `"Snake case"` gives `snake_case`.
    fn to_ascii_snake_lower(&self) -> (r: String)
        ensures
            r@ == join_with(lower_all(tokens(self.name_view())), seq!['_']),
    ;
}

impl Naming for str {
    open spec fn name_view(&self) -> Seq<char> {
        self@
    }

    fn to_ascii_camel_upper(&self) -> (r: String) {
        let t = self.tokenize_ascii_alpha_num_to_first_upper();
        proof {
            reveal_strlit("");
            assert(""@ =~= Seq::<char>::empty());
            assert(self.name_view() == self@);
        }
        join_texts(&t, "")
    }

    fn to_ascii_camel_lower(&self) -> (r: String) {
        let cu = self.to_ascii_camel_upper();
        let cs = chars_of(cu.as_str());
        let mut out = String::new();
        let mut i: usize = 0;
        while i < cs.len()
            invariant
                i <= cs@.len(),
                cs@ == cu@,
                out@ == lower_first(cs@).take(i as int),
            decreases cs@.len() - i,
        {
            let c = cs[i];
            let d = if i == 0 && 'A' <= c && c <= 'Z' {
                (((c as u32) + 32) as u8) as char
            } else {
                c
            };
            crate::essential::push_char(&mut out, d);
            assert(out@ =~= lower_first(cs@).take(i + 1));
            i = i + 1;
        }
        assert(lower_first(cs@).take(cs@.len() as int) =~= lower_first(cs@));
        out
    }

    fn to_ascii_kebab_capital(&self) -> (r: String) {
        let t = self.tokenize_ascii_alpha_num_to_capital();
        proof {
            reveal_strlit("-");
            assert("-"@ =~= seq!['-']);
            assert(self.name_view() == self@);
        }
        join_texts(&t, "-")
    }

    fn to_ascii_kebab_upper(&self) -> (r: String) {
        let t = self.tokenize_ascii_alpha_num_to_first_upper();
        proof {
            reveal_strlit("-");
            assert("-"@ =~= seq!['-']);
            assert(self.name_view() == self@);
        }
        join_texts(&t, "-")
    }

    fn to_ascii_kebab_lower(&self) -> (r: String) {
        let t = self.tokenize_ascii_alpha_num_to_lower();
        proof {
            reveal_strlit("-");
            assert("-"@ =~= seq!['-']);
            assert(self.name_view() == self@);
        }
        join_texts(&t, "-")
    }

    fn to_ascii_snake_capital(&self) -> (r: String) {
        let t = self.tokenize_ascii_alpha_num_to_capital();
        proof {
            reveal_strlit("_");
            assert("_"@ =~= seq!['_']);
            assert(self.name_view() == self@);
        }
        join_texts(&t, "_")
    }

    fn to_ascii_snake_upper(&self) -> (r: String) {
        let t = self.tokenize_ascii_alpha_num_to_first_upper();
        proof {
            reveal_strlit("_");
            assert("_"@ =~= seq!['_']);
            assert(self.name_view() == self@);
        }
        join_texts(&t, "_")
    }

    fn to_ascii_snake_lower(&self) -> (r: String) {
        let t = self.tokenize_ascii_alpha_num_to_lower();
        proof {
            reveal_strlit("_");
            assert("_"@ =~= seq!['_']);
            assert(self.name_view() == self@);
        }
        join_texts(&t, "_")
    }
}

} // verus!
