//! Laws of semantic versions: reading the canonical text gives the version back, and build
//! metadata never changes precedence.
use vstd::prelude::*;
use std::cmp::Ordering;
use crate::build_metadata::{build_identifier, build_text};
use crate::compare::{digit_value, digits_value, is_numeric};
use crate::dotted::{join_dot, lemma_split_join, lemma_split_len, no_dot, split_dot};
use crate::identifier::{
    all_digits, all_identifier_chars, is_digit, is_identifier_char, numeric_identifier,
};
use crate::prerelease::{pre_release_identifier, pre_release_text};
use crate::scan::{find_char, lemma_digit_run, lemma_find_char};
use crate::semantic::{
    core_pieces, core_spec, decimal, digit_char, format_spec, parse_spec, tail_spec,
    version_cmp, VersionView,
};

verus! {

/// Every identifier of the list is made of identifier characters, and the list is not empty.
pub open spec fn plain_ids(ids: Seq<Seq<char>>) -> bool {
    &&& ids.len() >= 1
    &&& forall|i: int| 0 <= i < ids.len() ==> all_identifier_chars(#[trigger] ids[i])
    &&& forall|i: int| 0 <= i < ids.len() ==> (#[trigger] ids[i]).len() > 0
}

/// The pre-release and build identifiers of `v` are those that strict reading accepts.
pub open spec fn strict_ids(v: VersionView) -> bool {
    &&& v.pre_release matches Some(p) ==> plain_ids(p) && forall|i: int|
        0 <= i < p.len() ==> pre_release_identifier(#[trigger] p[i], true)
    &&& v.build matches Some(b) ==> plain_ids(b) && forall|i: int|
        0 <= i < b.len() ==> build_identifier(#[trigger] b[i], true)
}

proof fn lemma_digit_char(d: nat)
    requires
        d < 10,
    ensures
        is_digit(digit_char(d)),
        digit_value(digit_char(d)) == d,
{
    let t = seq!['0', '1', '2', '3', '4', '5', '6', '7', '8', '9'];
    assert(digit_char(d) == t[d as int]);
    if d == 0 {
        assert(t[0] == '0');
    } else if d == 1 {
        assert(t[1] == '1');
    } else if d == 2 {
        assert(t[2] == '2');
    } else if d == 3 {
        assert(t[3] == '3');
    } else if d == 4 {
        assert(t[4] == '4');
    } else if d == 5 {
        assert(t[5] == '5');
    } else if d == 6 {
        assert(t[6] == '6');
    } else if d == 7 {
        assert(t[7] == '7');
    } else if d == 8 {
        assert(t[8] == '8');
    } else {
        assert(t[9] == '9');
    }
}

/// The numeral of `n` is a strict numeric identifier that denotes `n`.
proof fn lemma_decimal(n: nat)
    ensures
        decimal(n).len() >= 1,
        all_digits(decimal(n)),
        digits_value(decimal(n)) == n,
        n >= 1 ==> decimal(n)[0] != '0',
        numeric_identifier(decimal(n), true),
    decreases n,
{
    if n < 10 {
        lemma_digit_char(n);
        let s = decimal(n);
        assert(s == seq![digit_char(n)]);
        assert(s.drop_last() =~= Seq::<char>::empty());
        assert(s.last() == digit_char(n));
        assert(digits_value(Seq::<char>::empty()) == 0);
        assert(digits_value(s) == digits_value(s.drop_last()) * 10 + digit_value(s.last()));
        if n >= 1 {
            assert(digit_value('0') == 0);
        }
    } else {
        lemma_decimal(n / 10);
        lemma_digit_char(n % 10);
        let s = decimal(n);
        assert(s == decimal(n / 10).push(digit_char(n % 10)));
        assert(s.drop_last() =~= decimal(n / 10));
        assert(s.last() == digit_char(n % 10));
        assert(digits_value(s) == digits_value(decimal(n / 10)) * 10 + digit_value(
            digit_char(n % 10),
        ));
        vstd::arithmetic::div_mod::lemma_fundamental_div_mod(n as int, 10);
        assert((n / 10) * 10 + n % 10 == n) by (nonlinear_arith)
            requires
                n == 10 * (n / 10) + n % 10,
        ;
        assert(s[0] == decimal(n / 10)[0]);
    }
}

proof fn lemma_plain_char(c: char)
    requires
        is_identifier_char(c),
    ensures
        c != '.',
        c != '+',
{
}

/// Joined identifier characters hold no `+`.
proof fn lemma_join_no_plus(parts: Seq<Seq<char>>)
    requires
        forall|i: int| 0 <= i < parts.len() ==> all_identifier_chars(#[trigger] parts[i]),
    ensures
        forall|j: int| 0 <= j < join_dot(parts).len() ==> #[trigger] join_dot(parts)[j] != '+',
    decreases parts.len(),
{
    if parts.len() == 1 {
        assert forall|j: int| 0 <= j < join_dot(parts).len() implies #[trigger] join_dot(parts)[j] != '+' by {
            assert(all_identifier_chars(parts[0]));
            lemma_plain_char(parts[0][j]);
        }
    } else if parts.len() > 1 {
        let init = parts.drop_last();
        assert forall|i: int| 0 <= i < init.len() implies all_identifier_chars(#[trigger] init[i]) by {
            assert(init[i] == parts[i]);
        }
        lemma_join_no_plus(init);
        let l = parts.last();
        assert(all_identifier_chars(parts[parts.len() - 1]));
        let a = join_dot(init);
        assert forall|j: int| 0 <= j < join_dot(parts).len() implies #[trigger] join_dot(parts)[j] != '+' by {
            if j < a.len() {
                assert(join_dot(parts)[j] == a[j]);
            } else if j == a.len() {
                assert(join_dot(parts)[j] == '.');
            } else {
                assert(join_dot(parts)[j] == l[j - a.len() - 1]);
                lemma_plain_char(l[j - a.len() - 1]);
            }
        }
    }
}

/// Joined identifiers cut at the dots give the identifiers back, and the text is not empty.
proof fn lemma_ids_round_trip(parts: Seq<Seq<char>>)
    requires
        plain_ids(parts),
    ensures
        split_dot(join_dot(parts)) == parts,
        join_dot(parts).len() > 0,
        forall|j: int| 0 <= j < join_dot(parts).len() ==> #[trigger] join_dot(parts)[j] != '+',
{
    assert forall|i: int| 0 <= i < parts.len() implies no_dot(#[trigger] parts[i]) by {
        assert(all_identifier_chars(parts[i]));
        assert forall|k: int| 0 <= k < parts[i].len() implies parts[i][k] != '.' by {
            lemma_plain_char(parts[i][k]);
        }
    }
    lemma_split_join(parts);
    lemma_join_no_plus(parts);
    if join_dot(parts).len() == 0 {
        assert(join_dot(parts) =~= Seq::<char>::empty());
        assert(split_dot(Seq::<char>::empty()) == seq![Seq::<char>::empty()]);
        assert(parts[0].len() > 0);
    }
}

/// What reading the text after the version core gives for the formatted tail.
proof fn lemma_tail(v: VersionView, t: Seq<char>)
    requires
        strict_ids(v),
        t == match v.pre_release {
            Some(p) => seq!['-'] + join_dot(p),
            None => Seq::<char>::empty(),
        } + match v.build {
            Some(b) => seq!['+'] + join_dot(b),
            None => Seq::<char>::empty(),
        },
    ensures
        t.len() == 0 <==> v.pre_release is None && v.build is None,
        t.len() > 0 ==> tail_spec(t, true) == Ok::<_, crate::semantic::Fault>(
            (v.pre_release, v.build),
        ),
        t.len() == 0 || t[0] == '-' || t[0] == '+',
{
    match (v.pre_release, v.build) {
        (None, None) => {
            assert(t =~= Seq::<char>::empty());
        },
        (Some(p), None) => {
            lemma_ids_round_trip(p);
            let jp = join_dot(p);
            assert(t =~= seq!['-'] + jp);
            assert forall|j: int| 0 <= j < t.len() implies t[j] != '+' by {
                if j > 0 {
                    assert(t[j] == jp[j - 1]);
                }
            }
            lemma_find_char(t, '+', t.len() as int);
            assert(t.skip(1) =~= jp);
        },
        (None, Some(b)) => {
            lemma_ids_round_trip(b);
            let jb = join_dot(b);
            assert(t =~= seq!['+'] + jb);
            assert(t.skip(1) =~= jb);
        },
        (Some(p), Some(b)) => {
            lemma_ids_round_trip(p);
            lemma_ids_round_trip(b);
            let jp = join_dot(p);
            let jb = join_dot(b);
            assert(t =~= seq!['-'] + jp + seq!['+'] + jb);
            let q: int = 1 + jp.len() as int;
            assert forall|j: int| 0 <= j < q implies t[j] != '+' by {
                if j > 0 {
                    assert(t[j] == jp[j - 1]);
                }
            }
            assert(t[q] == '+');
            lemma_find_char(t, '+', q);
            assert(t.subrange(1, q) =~= jp);
            assert(t.skip(q + 1) =~= jb);
        },
    }
}

/// The version core of `d1.d2.d3` followed by `t` splits into those four pieces.
proof fn lemma_core_pieces(d1: Seq<char>, d2: Seq<char>, d3: Seq<char>, t: Seq<char>)
    requires
        d1.len() >= 1,
        d2.len() >= 1,
        d3.len() >= 1,
        all_digits(d1),
        all_digits(d2),
        all_digits(d3),
        t.len() == 0 || t[0] == '-' || t[0] == '+',
    ensures
        core_pieces(d1 + seq!['.'] + d2 + seq!['.'] + d3 + t) == Some((d1, d2, d3, t)),
{
    let s = d1 + seq!['.'] + d2 + seq!['.'] + d3 + t;
    assert forall|j: int| 0 <= j < d1.len() implies s[j] != '.' by {
        assert(s[j] == d1[j]);
        assert(is_digit(d1[j]));
    }
    assert(s[d1.len() as int] == '.');
    lemma_find_char(s, '.', d1.len() as int);
    let r1 = s.skip(d1.len() as int + 1);
    assert(r1 =~= d2 + seq!['.'] + d3 + t);
    assert forall|j: int| 0 <= j < d2.len() implies r1[j] != '.' by {
        assert(r1[j] == d2[j]);
        assert(is_digit(d2[j]));
    }
    assert(r1[d2.len() as int] == '.');
    lemma_find_char(r1, '.', d2.len() as int);
    let r2 = r1.skip(d2.len() as int + 1);
    assert(r2 =~= d3 + t);
    assert forall|j: int| 0 <= j < d3.len() implies is_digit(r2[j]) by {
        assert(r2[j] == d3[j]);
    }
    if t.len() > 0 {
        assert(r2[d3.len() as int] == t[0]);
    }
    lemma_digit_run(r2, d3.len() as int);
    assert(s.take(d1.len() as int) =~= d1);
    assert(r1.take(d2.len() as int) =~= d2);
    assert(r2.take(d3.len() as int) =~= d3);
    assert(r2.skip(d3.len() as int) =~= t);
}

/// Reading the canonical text of a version whose identifiers strict mode accepts gives the
/// version back.
pub proof fn lemma_format_parse(v: VersionView)
    requires
        strict_ids(v),
    ensures
        parse_spec(format_spec(v), true) == Ok::<_, crate::semantic::Fault>(v),
{
    let d1 = decimal(v.major as nat);
    let d2 = decimal(v.minor as nat);
    let d3 = decimal(v.patch as nat);
    lemma_decimal(v.major as nat);
    lemma_decimal(v.minor as nat);
    lemma_decimal(v.patch as nat);
    let t = match v.pre_release {
        Some(p) => seq!['-'] + join_dot(p),
        None => Seq::<char>::empty(),
    } + match v.build {
        Some(b) => seq!['+'] + join_dot(b),
        None => Seq::<char>::empty(),
    };
    lemma_tail(v, t);
    let s = format_spec(v);
    assert(s =~= d1 + seq!['.'] + d2 + seq!['.'] + d3 + t);
    lemma_core_pieces(d1, d2, d3, t);
    assert(core_spec(s, true) == Ok::<_, crate::semantic::Fault>((v.major, v.minor, v.patch, t)));
}

/// What a successful strict reading gives has identifiers that strict mode accepts.
pub proof fn lemma_parse_strict_ids(s: Seq<char>)
    requires
        parse_spec(s, true) is Ok,
    ensures
        strict_ids(parse_spec(s, true)->Ok_0),
{
    let rest = core_spec(s, true)->Ok_0.3;
    let v = parse_spec(s, true)->Ok_0;
    if let Some(p) = v.pre_release {
        let txt = if rest[0] == '-' && find_char(rest, '+') < rest.len() {
            rest.subrange(1, find_char(rest, '+'))
        } else {
            rest.skip(1)
        };
        assert(pre_release_text(txt, true));
        assert(p == split_dot(txt));
        lemma_split_len(txt);
        assert forall|i: int| 0 <= i < p.len() implies all_identifier_chars(#[trigger] p[i]) && p[i].len() > 0 by {
            assert(pre_release_identifier(split_dot(txt)[i], true));
        }
    }
    if let Some(b) = v.build {
        let q = find_char(rest, '+');
        let txt = if rest[0] == '-' {
            rest.skip(q + 1)
        } else {
            rest.skip(1)
        };
        assert(build_text(txt, true));
        assert(b == split_dot(txt));
        lemma_split_len(txt);
        assert forall|i: int| 0 <= i < b.len() implies all_identifier_chars(#[trigger] b[i]) && b[i].len() > 0 by {
            assert(build_identifier(split_dot(txt)[i], true));
            if is_numeric(b[i]) {
                assert forall|k: int| 0 <= k < b[i].len() implies is_identifier_char(#[trigger] b[i][k]) by {
                    assert(is_digit(b[i][k]));
                }
            }
        }
    }
}

/// Round trip: when strict reading of `s` succeeds, reading its canonical text again gives an
/// equal version.
pub proof fn lemma_round_trip(s: Seq<char>)
    requires
        parse_spec(s, true) is Ok,
    ensures
        parse_spec(format_spec(parse_spec(s, true)->Ok_0), true) == parse_spec(s, true),
{
    lemma_parse_strict_ids(s);
    lemma_format_parse(parse_spec(s, true)->Ok_0);
}

/// `1.0.0+` followed by any text reads, when it reads at all, as version `1.0.0` without
/// pre-release identifiers.
proof fn lemma_one_zero_zero_build(b: Seq<char>, strict: bool)
    requires
        parse_spec(seq!['1', '.', '0', '.', '0', '+'] + b, strict) is Ok,
    ensures
        ({
            let v = parse_spec(seq!['1', '.', '0', '.', '0', '+'] + b, strict)->Ok_0;
            v.major == 1 && v.minor == 0 && v.patch == 0 && v.pre_release is None
        }),
{
    let one = seq!['1'];
    let zero = seq!['0'];
    let t = seq!['+'] + b;
    let s = seq!['1', '.', '0', '.', '0', '+'] + b;
    assert(s =~= one + seq!['.'] + zero + seq!['.'] + zero + t);
    assert(is_digit(one[0]) && is_digit(zero[0]));
    lemma_core_pieces(one, zero, zero, t);
    assert(one.drop_last() =~= Seq::<char>::empty());
    assert(zero.drop_last() =~= Seq::<char>::empty());
    lemma_digit_char(1);
    assert(digit_char(1) == '1');
    assert(one.last() == '1');
    assert(digits_value(one.drop_last()) == 0);
    assert(digits_value(one) == digits_value(one.drop_last()) * 10 + digit_value(one.last()));
    assert(digits_value(one) == 1);
    assert(digits_value(zero) == 0);
    assert(numeric_identifier(one, strict));
    assert(numeric_identifier(zero, strict));
    assert(core_spec(s, strict) == Ok::<_, crate::semantic::Fault>((1u64, 0u64, 0u64, t)));
}

/// Build metadata never changes precedence: `1.0.0+B1` and `1.0.0+B2` rank equal for any
/// build texts `B1` and `B2` that read successfully.
pub proof fn lemma_build_ignored(b1: Seq<char>, b2: Seq<char>, strict: bool)
    requires
        parse_spec(seq!['1', '.', '0', '.', '0', '+'] + b1, strict) is Ok,
        parse_spec(seq!['1', '.', '0', '.', '0', '+'] + b2, strict) is Ok,
    ensures
        version_cmp(
            parse_spec(seq!['1', '.', '0', '.', '0', '+'] + b1, strict)->Ok_0,
            parse_spec(seq!['1', '.', '0', '.', '0', '+'] + b2, strict)->Ok_0,
        ) == Ordering::Equal,
{
    lemma_one_zero_zero_build(b1, strict);
    lemma_one_zero_zero_build(b2, strict);
}

/// Precedence never looks at build metadata: replacing the build identifiers of either
/// version leaves the comparison unchanged.
pub proof fn lemma_precedence_ignores_build(
    a: VersionView,
    b: VersionView,
    build_a: Option<Seq<Seq<char>>>,
    build_b: Option<Seq<Seq<char>>>,
)
    ensures
        version_cmp((VersionView { build: build_a, ..a }), (VersionView { build: build_b, ..b }))
            == version_cmp(a, b),
{
}

} // verus!
