//! The order of strings (lexicographic by code point, which is also the
//! byte order of their UTF-8 encodings) and a verified sort by it.

use vstd::prelude::*;
use vstd::relations::{sorted_by, total_ordering};
use vstd::seq_lib::{lemma_multiset_commutative, lemma_sorted_unique};
use crate::text::chars_of;

verus! {

broadcast use {vstd::string::group_string_axioms, vstd::seq_lib::group_to_multiset_ensures, vstd::multiset::group_multiset_axioms};

/// `a <= b` in the order of `str`: compare code points left to right; a
/// proper prefix comes first.
pub open spec fn lex_le(a: Seq<char>, b: Seq<char>) -> bool
    decreases a.len(),
{
    if a.len() == 0 {
        true
    } else if b.len() == 0 {
        false
    } else if a[0] != b[0] {
        (a[0] as int) < (b[0] as int)
    } else {
        lex_le(a.drop_first(), b.drop_first())
    }
}

/// The order as a relation.
pub open spec fn str_order() -> spec_fn(Seq<char>, Seq<char>) -> bool {
    |x: Seq<char>, y: Seq<char>| lex_le(x, y)
}

/// The character views of a sequence of strings.
pub open spec fn views(s: Seq<String>) -> Seq<Seq<char>> {
    s.map_values(|x: String| x@)
}

proof fn lemma_seq_head_tail(a: Seq<char>, b: Seq<char>)
    requires
        a.len() > 0,
        b.len() > 0,
        a[0] == b[0],
        a.drop_first() == b.drop_first(),
    ensures
        a == b,
{
    assert(a.drop_first().len() == a.len() - 1);
    assert(b.drop_first().len() == b.len() - 1);
    assert(a.len() == b.len());
    assert forall|i: int| 0 <= i < a.len() implies a[i] == b[i] by {
        if i > 0 {
            assert(a[i] == a.drop_first()[i - 1]);
            assert(b[i] == b.drop_first()[i - 1]);
        }
    }
    assert(a =~= b);
}

pub proof fn lemma_lex_reflexive(a: Seq<char>)
    ensures
        lex_le(a, a),
    decreases a.len(),
{
    if a.len() > 0 {
        lemma_lex_reflexive(a.drop_first());
    }
}

pub proof fn lemma_lex_antisymmetric(a: Seq<char>, b: Seq<char>)
    requires
        lex_le(a, b),
        lex_le(b, a),
    ensures
        a == b,
    decreases a.len(),
{
    if a.len() == 0 {
        assert(b.len() == 0);
        assert(a =~= b);
    } else {
        assert(b.len() > 0);
        if a[0] == b[0] {
            lemma_lex_antisymmetric(a.drop_first(), b.drop_first());
            lemma_seq_head_tail(a, b);
        }
    }
}

pub proof fn lemma_lex_transitive(a: Seq<char>, b: Seq<char>, c: Seq<char>)
    requires
        lex_le(a, b),
        lex_le(b, c),
    ensures
        lex_le(a, c),
    decreases a.len(),
{
    if a.len() > 0 {
        assert(b.len() > 0);
        assert(c.len() > 0);
        if a[0] == b[0] && b[0] == c[0] {
            lemma_lex_transitive(a.drop_first(), b.drop_first(), c.drop_first());
        }
    }
}

pub proof fn lemma_lex_total(a: Seq<char>, b: Seq<char>)
    ensures
        lex_le(a, b) || lex_le(b, a),
    decreases a.len(),
{
    if a.len() > 0 && b.len() > 0 && a[0] == b[0] {
        lemma_lex_total(a.drop_first(), b.drop_first());
    }
}

/// The string order is a total order.
pub proof fn lemma_str_order_total()
    ensures
        total_ordering(str_order()),
{
    let r = str_order();
    assert forall|x: Seq<char>| #[trigger] r(x, x) by {
        lemma_lex_reflexive(x);
    }
    assert forall|x: Seq<char>, y: Seq<char>| #[trigger] r(x, y) && #[trigger] r(y, x) implies x
        == y by {
        lemma_lex_antisymmetric(x, y);
    }
    assert forall|x: Seq<char>, y: Seq<char>, z: Seq<char>|
        #[trigger] r(x, y) && #[trigger] r(y, z) implies r(x, z) by {
        lemma_lex_transitive(x, y, z);
    }
    assert forall|x: Seq<char>, y: Seq<char>| #[trigger] r(x, y) || #[trigger] r(y, x) by {
        lemma_lex_total(x, y);
    }
}

/// `a <= b` for strings.
pub fn str_le(a: &str, b: &str) -> (r: bool)
    ensures
        r == lex_le(a@, b@),
{
    let va = chars_of(a);
    let vb = chars_of(b);
    let mut i: usize = 0;
    assert(a@.skip(0) =~= a@);
    assert(b@.skip(0) =~= b@);
    while i < va.len() && i < vb.len()
        invariant
            va@ == a@,
            vb@ == b@,
            i <= va@.len(),
            i <= vb@.len(),
            lex_le(a@, b@) == lex_le(a@.skip(i as int), b@.skip(i as int)),
        decreases va@.len() - i,
    {
        let ghost sa = a@.skip(i as int);
        let ghost sb = b@.skip(i as int);
        assert(sa[0] == va@[i as int]);
        assert(sb[0] == vb@[i as int]);
        if va[i] != vb[i] {
            return va[i] < vb[i];
        }
        assert(sa.drop_first() =~= a@.skip(i + 1));
        assert(sb.drop_first() =~= b@.skip(i + 1));
        i = i + 1;
    }
    assert(a@.skip(i as int).len() == a@.len() - i);
    i == va.len()
}

/// The strings sorted ascending (as `slice::sort` on `String`s orders them).
pub fn sort_strings(keys: &[String]) -> (out: Vec<String>)
    ensures
        views(out@) == views(keys@).sort_by(str_order()),
        sorted_by(views(out@), str_order()),
        views(out@).to_multiset() == views(keys@).to_multiset(),
{
    let mut out: Vec<String> = Vec::new();
    let ghost ord = str_order();
    proof {
        lemma_str_order_total();
    }
    let mut i: usize = 0;
    assert(views(out@) =~= Seq::<Seq<char>>::empty());
    assert(views(keys@.subrange(0, 0)) =~= Seq::<Seq<char>>::empty());
    while i < keys.len()
        invariant
            i <= keys@.len(),
            ord == str_order(),
            total_ordering(ord),
            sorted_by(views(out@), ord),
            views(out@).to_multiset() == views(keys@.subrange(0, i as int)).to_multiset(),
        decreases keys@.len() - i,
    {
        let k = keys[i].clone();
        let mut p: usize = 0;
        while p < out.len() && str_le(out[p].as_str(), k.as_str())
            invariant
                p <= out@.len(),
                forall|j: int| 0 <= j < p ==> lex_le(#[trigger] out@[j]@, k@),
            decreases out@.len() - p,
        {
            p = p + 1;
        }
        let ghost old_v = views(out@);
        proof {
            if p < out@.len() {
                lemma_lex_total(out@[p as int]@, k@);
            }
            assert forall|j: int| p <= j < old_v.len() implies lex_le(k@, #[trigger] old_v[j]) by {
                assert(old_v[p as int] == out@[p as int]@);
                if j > p {
                    assert(ord(old_v[p as int], old_v[j]));
                    lemma_lex_transitive(k@, old_v[p as int], old_v[j]);
                }
            }
        }
        out.insert(p, k);
        let ghost new_v = views(out@);
        proof {
            assert(new_v =~= old_v.insert(p as int, k@));
            let a = old_v.subrange(0, p as int);
            let b = old_v.subrange(p as int, old_v.len() as int);
            assert(old_v =~= a + b);
            assert(new_v =~= a.push(k@) + b);
            lemma_multiset_commutative(a, b);
            lemma_multiset_commutative(a.push(k@), b);
            assert(new_v.to_multiset() =~= old_v.to_multiset().insert(k@));
            let pre = keys@.subrange(0, i as int);
            assert(views(keys@.subrange(0, i + 1)) =~= views(pre).push(k@));
            assert forall|x: int, y: int| 0 <= x < y < new_v.len() implies #[trigger] ord(
                new_v[x],
                new_v[y],
            ) by {
                if y < p {
                    assert(ord(old_v[x], old_v[y]));
                } else if y == p {
                    assert(lex_le(out@[x]@, k@));
                } else if x > p {
                    assert(ord(old_v[x - 1], old_v[y - 1]));
                } else if x == p {
                    assert(lex_le(k@, old_v[y - 1]));
                } else {
                    assert(ord(old_v[x], old_v[y - 1]));
                }
            }
        }
        i = i + 1;
    }
    proof {
        assert(keys@.subrange(0, keys@.len() as int) =~= keys@);
        views(keys@).lemma_sort_by_ensures(ord);
        lemma_sorted_unique(views(out@), views(keys@).sort_by(ord), ord);
    }
    out
}

/// `a < b` in the order of `str`.
pub open spec fn lex_lt(a: Seq<char>, b: Seq<char>) -> bool {
    lex_le(a, b) && a != b
}

/// Strictly ascending: sorted without repeats.
pub open spec fn strictly_ascending(s: Seq<Seq<char>>) -> bool {
    forall|i: int, j: int| 0 <= i < j < s.len() ==> lex_lt(#[trigger] s[i], #[trigger] s[j])
}

/// The distinct strings of a list, ascending.
pub fn sorted_distinct(keys: &Vec<String>) -> (out: Vec<String>)
    ensures
        strictly_ascending(views(out@)),
        forall|x: Seq<char>| #[trigger] views(out@).contains(x) == views(keys@).contains(x),
{
    let ks = keys.as_slice();
    let sorted = sort_strings(ks);
    proof {
        lemma_str_order_total();
    }
    let ghost sv = views(sorted@);
    let mut out: Vec<String> = Vec::new();
    let mut i: usize = 0;
    while i < sorted.len()
        invariant
            i <= sorted@.len(),
            sv == views(sorted@),
            sorted_by(sv, str_order()),
            total_ordering(str_order()),
            strictly_ascending(views(out@)),
            i > 0 ==> views(out@).len() > 0 && views(out@).last() == sv[i - 1],
            i == 0 ==> out@.len() == 0,
            forall|m: int| 0 <= m < out@.len() ==> lex_le(#[trigger] views(out@)[m], sv[i - 1]),
            forall|x: Seq<char>| #[trigger] views(out@).contains(x) == sv.take(i as int).contains(x),
        decreases sorted@.len() - i,
    {
        let ghost before = views(out@);
        assert(forall|x: Seq<char>| #[trigger] before.contains(x) == sv.take(i as int).contains(x));
        assert(sv.take(i + 1) =~= sv.take(i as int).push(sv[i as int]));
        assert(sv[i as int] == sorted@[i as int]@);
        if i > 0 && str_le(sorted[i].as_str(), sorted[i - 1].as_str()) {
            proof {
                assert(str_order()(sv[i - 1], sv[i as int]));
                lemma_lex_antisymmetric(sv[i - 1], sv[i as int]);
                assert forall|x: Seq<char>| #[trigger] views(out@).contains(x) == sv.take(i + 1).contains(x) by {
                    if sv.take(i + 1).contains(x) && x == sv[i as int] {
                        assert(before[before.len() - 1] == x);
                    }
                    if sv.take(i as int).contains(x) {
                        let w = choose|w: int| 0 <= w < i && #[trigger] sv.take(i as int)[w] == x;
                        assert(sv.take(i + 1)[w] == x);
                    }
                }
            }
        } else {
            out.push(sorted[i].clone());
            proof {
                let now = views(out@);
                assert(now =~= before.push(sv[i as int]));
                if i > 0 {
                    assert(str_order()(sv[i - 1], sv[i as int]));
                    lemma_lex_total(sv[i as int], sv[i - 1]);
                    assert(!lex_le(sv[i as int], sv[i - 1]));
                    assert(sv[i - 1] != sv[i as int]);
                }
                assert forall|a: int, b: int| 0 <= a < b < now.len() implies lex_lt(#[trigger] now[a], #[trigger] now[b]) by {
                    if b == now.len() - 1 {
                        assert(lex_le(before[a], sv[i - 1]));
                        lemma_lex_transitive(before[a], sv[i - 1], sv[i as int]);
                        if before[a] == sv[i as int] {
                            lemma_lex_antisymmetric(sv[i - 1], sv[i as int]);
                        }
                    } else {
                        assert(now[a] == before[a] && now[b] == before[b]);
                    }
                }
                assert forall|m: int| 0 <= m < now.len() implies lex_le(#[trigger] now[m], sv[i as int]) by {
                    if m < before.len() {
                        assert(lex_le(before[m], sv[i - 1]));
                        lemma_lex_transitive(before[m], sv[i - 1], sv[i as int]);
                    } else {
                        lemma_lex_reflexive(sv[i as int]);
                    }
                }
                assert forall|x: Seq<char>| #[trigger] now.contains(x) == sv.take(i + 1).contains(x) by {
                    if now.contains(x) && x != sv[i as int] {
                        let w = choose|w: int| 0 <= w < now.len() && #[trigger] now[w] == x;
                        assert(before[w] == x);
                        assert(before.contains(x));
                        let w2 = choose|w2: int| 0 <= w2 < i && #[trigger] sv.take(i as int)[w2] == x;
                        assert(sv.take(i + 1)[w2] == x);
                    }
                    if x == sv[i as int] {
                        assert(now[now.len() - 1] == x);
                        assert(sv.take(i + 1)[i as int] == x);
                    }
                    if sv.take(i + 1).contains(x) && x != sv[i as int] {
                        let w = choose|w: int| 0 <= w < i + 1 && #[trigger] sv.take(i + 1)[w] == x;
                        assert(sv.take(i as int)[w] == x);
                        assert(sv.take(i as int).contains(x));
                        assert(before.contains(x));
                        let w2 = choose|w2: int| 0 <= w2 < before.len() && #[trigger] before[w2] == x;
                        assert(now[w2] == x);
                    }
                }
            }
        }
        i = i + 1;
    }
    proof {
        assert(sv.take(i as int) =~= sv);
        assert forall|x: Seq<char>| #[trigger] views(out@).contains(x) == views(keys@).contains(x) by {
            vstd::seq_lib::to_multiset_contains(sv, x);
            vstd::seq_lib::to_multiset_contains(views(keys@), x);
        }
    }
    out
}

} // verus!
