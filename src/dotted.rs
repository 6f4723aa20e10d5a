//! Dot-separated lists of identifiers: cutting text at `.` and joining parts with `.`.
use vstd::prelude::*;
use crate::essential::push_char;

verus! {

/// `s` cut at every `.`; text without a dot is a single part.
pub open spec fn split_dot(s: Seq<char>) -> Seq<Seq<char>>
    decreases s.len(),
{
    if s.len() == 0 {
        seq![Seq::empty()]
    } else {
        let p = split_dot(s.drop_last());
        if s.last() == '.' {
            p.push(Seq::empty())
        } else {
            p.update(p.len() - 1, p[p.len() - 1].push(s.last()))
        }
    }
}

/// The parts with a `.` between each two.
pub open spec fn join_dot(parts: Seq<Seq<char>>) -> Seq<char>
    decreases parts.len(),
{
    if parts.len() == 0 {
        Seq::empty()
    } else if parts.len() == 1 {
        parts[0]
    } else {
        join_dot(parts.drop_last()) + seq!['.'] + parts.last()
    }
}

pub open spec fn no_dot(s: Seq<char>) -> bool {
    forall|i: int| 0 <= i < s.len() ==> s[i] != '.'
}

pub proof fn lemma_split_len(s: Seq<char>)
    ensures
        split_dot(s).len() >= 1,
    decreases s.len(),
{
    if s.len() > 0 {
        lemma_split_len(s.drop_last());
    }
}

/// Appending text without a dot extends the last part.
proof fn lemma_split_append(a: Seq<char>, b: Seq<char>)
    requires
        no_dot(b),
    ensures
        split_dot(a + b) == split_dot(a).update(
            split_dot(a).len() - 1,
            split_dot(a).last() + b,
        ),
    decreases b.len(),
{
    lemma_split_len(a);
    if b.len() == 0 {
        assert(a + b == a);
        assert(split_dot(a).last() + b == split_dot(a).last());
        assert(split_dot(a).update(split_dot(a).len() - 1, split_dot(a).last()) == split_dot(a));
    } else {
        let b0 = b.drop_last();
        assert forall|i: int| 0 <= i < b0.len() implies b0[i] != '.' by {
            assert(b0[i] == b[i]);
        }
        lemma_split_append(a, b0);
        assert((a + b).drop_last() == a + b0);
        assert((a + b).last() == b.last());
        assert(b[b.len() - 1] != '.');
        let n = split_dot(a).len();
        let l = split_dot(a).last();
        let p = split_dot(a + b0);
        assert(p.len() == n);
        assert(p[n - 1] == l + b0);
        assert((l + b0).push(b.last()) =~= l + b);
        assert(split_dot(a + b) == p.update(n - 1, p[n - 1].push(b.last())));
        assert(p.update(n - 1, (l + b0).push(b.last())) =~= split_dot(a).update(n - 1, l + b));
    }
}

/// Cutting the joined parts gives the parts back.
pub proof fn lemma_split_join(parts: Seq<Seq<char>>)
    requires
        parts.len() >= 1,
        forall|i: int| 0 <= i < parts.len() ==> no_dot(#[trigger] parts[i]),
    ensures
        split_dot(join_dot(parts)) == parts,
    decreases parts.len(),
{
    if parts.len() == 1 {
        lemma_split_append(Seq::empty(), parts[0]);
        assert(Seq::<char>::empty() + parts[0] == parts[0]);
        assert(split_dot(Seq::<char>::empty()) == seq![Seq::<char>::empty()]);
        assert(Seq::<char>::empty() + parts[0] == parts[0]);
        assert(seq![Seq::<char>::empty()].update(0, parts[0]) == parts);
    } else {
        let init = parts.drop_last();
        assert forall|i: int| 0 <= i < init.len() implies no_dot(#[trigger] init[i]) by {
            assert(init[i] == parts[i]);
        }
        lemma_split_join(init);
        let a = join_dot(init) + seq!['.'];
        assert(a.drop_last() == join_dot(init));
        assert(split_dot(a) == init.push(Seq::empty()));
        assert(no_dot(parts[parts.len() - 1]));
        lemma_split_append(a, parts.last());
        assert(Seq::<char>::empty() + parts.last() == parts.last());
        assert(init.push(Seq::empty()).update(init.len() as int, parts.last()) == parts);
    }
}

pub open spec fn part_views(v: Seq<Vec<char>>) -> Seq<Seq<char>> {
    v.map_values(|x: Vec<char>| x@)
}

/// `s` cut at every `.`.
pub fn split_chars(s: &[char]) -> (r: Vec<Vec<char>>)
    ensures
        part_views(r@) == split_dot(s@),
{
    let mut done: Vec<Vec<char>> = Vec::new();
    let mut cur: Vec<char> = Vec::new();
    let mut i: usize = 0;
    assert(s@.take(0) == Seq::<char>::empty());
    while i < s.len()
        invariant
            i <= s@.len(),
            part_views(done@).push(cur@) == split_dot(s@.take(i as int)),
        decreases s@.len() - i,
    {
        let c = s[i];
        let ghost before = s@.take(i as int);
        assert(s@.take(i + 1).drop_last() == before);
        assert(s@.take(i + 1).last() == c);
        proof {
            lemma_split_len(before);
        }
        let ghost dv = part_views(done@);
        let ghost cv = cur@;
        if c == '.' {
            done.push(cur);
            assert(part_views(done@) =~= dv.push(cv));
            cur = Vec::new();
            assert(part_views(done@).push(cur@) =~= split_dot(before).push(Seq::empty()));
        } else {
            cur.push(c);
            assert(part_views(done@).push(cur@) =~= split_dot(before).update(
                split_dot(before).len() - 1,
                split_dot(before)[split_dot(before).len() - 1].push(c),
            ));
        }
        i = i + 1;
    }
    assert(s@.take(s@.len() as int) == s@);
    let ghost dv = part_views(done@);
    let ghost cv = cur@;
    done.push(cur);
    assert(part_views(done@) =~= dv.push(cv));
    done
}

/// The parts joined with `.`.
pub fn join_strings(parts: &Vec<String>) -> (r: String)
    ensures
        r@ == join_dot(parts@.map_values(|p: String| p@)),
{
    let ghost v = parts@.map_values(|p: String| p@);
    let mut r = String::new();
    let mut i: usize = 0;
    while i < parts.len()
        invariant
            i <= parts@.len(),
            v == parts@.map_values(|p: String| p@),
            r@ == join_dot(v.take(i as int)),
        decreases parts@.len() - i,
    {
        assert(v.take(i + 1).drop_last() == v.take(i as int));
        if i > 0 {
            push_char(&mut r, '.');
        } else {
            assert(v.take(1) == seq![v[0]]);
        }
        r.append(parts[i].as_str());
        i = i + 1;
    }
    assert(v.take(parts@.len() as int) == v);
    r
}

} // verus!
