//! Ordered lists of texts.
use vstd::prelude::*;
use vstd::string::*;

use crate::model::{group_seq_views, lemma_last_contained, seq_views};
use crate::text::{chars_of, same_text};

verus! {

broadcast use group_seq_views;

/// Dictionary order by code point, which is the byte order of UTF-8.
pub open spec fn text_less(a: Seq<char>, b: Seq<char>) -> bool
    decreases a.len(),
{
    if b.len() == 0 {
        false
    } else if a.len() == 0 {
        true
    } else if a[0] != b[0] {
        a[0] < b[0]
    } else {
        text_less(a.drop_first(), b.drop_first())
    }
}

pub proof fn lemma_text_less_total(a: Seq<char>, b: Seq<char>)
    ensures
        !(text_less(a, b) && text_less(b, a)),
        a != b ==> text_less(a, b) || text_less(b, a),
        !text_less(a, a),
    decreases a.len(),
{
    if a.len() > 0 && b.len() > 0 {
        lemma_text_less_total(a.drop_first(), b.drop_first());
        lemma_text_less_total(a.drop_first(), a.drop_first());
        if a != b && a[0] == b[0] {
            if a.drop_first() == b.drop_first() {
                assert(a =~= seq![a[0]] + a.drop_first());
                assert(b =~= seq![b[0]] + b.drop_first());
            }
        }
    } else if a.len() == 0 && b.len() == 0 {
        assert(a =~= b);
    } else if a.len() > 0 {
        lemma_text_less_total(a.drop_first(), a.drop_first());
    }
}

pub proof fn lemma_text_less_transitive(a: Seq<char>, b: Seq<char>, c: Seq<char>)
    requires
        text_less(a, b),
        text_less(b, c),
    ensures
        text_less(a, c),
    decreases a.len(),
{
    if a.len() > 0 && b.len() > 0 && c.len() > 0 && a[0] == b[0] && b[0] == c[0] {
        lemma_text_less_transitive(a.drop_first(), b.drop_first(), c.drop_first());
    }
}

pub fn text_before(a: &str, b: &str) -> (r: bool)
    ensures
        r == text_less(a@, b@),
{
    let x: Vec<char> = chars_of(a);
    let y: Vec<char> = chars_of(b);
    let mut i: usize = 0;
    assert(x@.skip(0) =~= x@);
    assert(y@.skip(0) =~= y@);
    while i < x.len() && i < y.len()
        invariant
            x@ == a@,
            y@ == b@,
            i <= x@.len(),
            i <= y@.len(),
            text_less(a@, b@) == text_less(x@.skip(i as int), y@.skip(i as int)),
        decreases x@.len() - i,
    {
        proof {
            assert(x@.skip(i as int).drop_first() =~= x@.skip(i + 1));
            assert(y@.skip(i as int).drop_first() =~= y@.skip(i + 1));
        }
        if x[i] != y[i] {
            return x[i] < y[i];
        }
        i = i + 1;
    }
    i < y.len()
}

/// A list without repetition, in dictionary order.
pub open spec fn ascending_texts(s: Seq<Seq<char>>) -> bool {
    forall|i: int, j: int| 0 <= i < j < s.len() ==> text_less(#[trigger] s[i], #[trigger] s[j])
}

/// Two ordered lists of the same texts are the same list.
pub proof fn lemma_ascending_texts_unique(a: Seq<Seq<char>>, b: Seq<Seq<char>>)
    requires
        ascending_texts(a),
        ascending_texts(b),
        forall|x: Seq<char>| a.contains(x) <==> b.contains(x),
    ensures
        a == b,
    decreases a.len(),
{
    if a.len() == 0 {
        if b.len() > 0 {
            assert(b.contains(b[0]));
        }
        assert(a =~= b);
    } else {
        assert(a.contains(a[0]));
        let k = choose|k: int| 0 <= k < b.len() && b[k] == a[0];
        assert(b.contains(b[0]));
        let m = choose|m: int| 0 <= m < a.len() && a[m] == b[0];
        if k > 0 {
            assert(text_less(b[0], b[k]));
            lemma_text_less_total(a[0], b[0]);
            if m > 0 {
                assert(text_less(a[0], a[m]));
            }
        }
        assert(a[0] == b[0]);
        let x = a.drop_first();
        let y = b.drop_first();
        assert forall|t: Seq<char>| x.contains(t) <==> y.contains(t) by {
            if x.contains(t) {
                let i = choose|i: int| 0 <= i < x.len() && x[i] == t;
                assert(a[i + 1] == t);
                assert(text_less(a[0], a[i + 1]));
                lemma_text_less_total(t, t);
                assert(b.contains(t));
                let j = choose|j: int| 0 <= j < b.len() && b[j] == t;
                assert(y[j - 1] == t);
            }
            if y.contains(t) {
                let i = choose|i: int| 0 <= i < y.len() && y[i] == t;
                assert(b[i + 1] == t);
                assert(text_less(b[0], b[i + 1]));
                lemma_text_less_total(t, t);
                assert(a.contains(t));
                let j = choose|j: int| 0 <= j < a.len() && a[j] == t;
                assert(x[j - 1] == t);
            }
        }
        lemma_ascending_texts_unique(x, y);
        assert(a =~= seq![a[0]] + x);
        assert(b =~= seq![b[0]] + y);
    }
}

/// `s` lists the members of `d` in dictionary order.
pub open spec fn lists_texts(s: Seq<Seq<char>>, d: Set<Seq<char>>) -> bool {
    &&& ascending_texts(s)
    &&& forall|x: Seq<char>| #[trigger] d.contains(x) <==> s.contains(x)
}

/// The members of a finite set of texts, in dictionary order.
pub open spec fn sorted_texts(d: Set<Seq<char>>) -> Seq<Seq<char>> {
    choose|s: Seq<Seq<char>>| lists_texts(s, d)
}

/// Whatever lists the members in order is `sorted_texts`.
pub proof fn lemma_sorted_texts(s: Seq<Seq<char>>, d: Set<Seq<char>>)
    requires
        lists_texts(s, d),
    ensures
        sorted_texts(d) == s,
{
    let t = sorted_texts(d);
    assert(lists_texts(t, d));
    assert forall|x: Seq<char>| s.contains(x) <==> t.contains(x) by {
        assert(d.contains(x) <==> s.contains(x));
        assert(d.contains(x) <==> t.contains(x));
    }
    lemma_ascending_texts_unique(s, t);
}

/// How many of the texts at the front stand before `x`.
spec fn texts_below(s: Seq<Seq<char>>, x: Seq<char>) -> nat
    decreases s.len(),
{
    if s.len() == 0 || !text_less(s[0], x) {
        0
    } else {
        1 + texts_below(s.drop_first(), x)
    }
}

proof fn lemma_texts_below(s: Seq<Seq<char>>, x: Seq<char>)
    requires
        ascending_texts(s),
        !s.contains(x),
    ensures
        texts_below(s, x) <= s.len(),
        forall|j: int| 0 <= j < texts_below(s, x) ==> text_less(#[trigger] s[j], x),
        forall|j: int| texts_below(s, x) <= j < s.len() ==> text_less(x, #[trigger] s[j]),
    decreases s.len(),
{
    if s.len() > 0 {
        let rest = s.drop_first();
        assert(s.contains(s[0]));
        lemma_text_less_total(s[0], x);
        if text_less(s[0], x) {
            assert(!rest.contains(x)) by {
                if rest.contains(x) {
                    let j = choose|j: int| 0 <= j < rest.len() && rest[j] == x;
                    assert(s[j + 1] == x);
                }
            }
            lemma_texts_below(rest, x);
            assert forall|j: int| 0 <= j < texts_below(s, x) implies text_less(
                #[trigger] s[j],
                x,
            ) by {
                if j > 0 {
                    assert(rest[j - 1] == s[j]);
                }
            }
            assert forall|j: int| texts_below(s, x) <= j < s.len() implies text_less(
                x,
                #[trigger] s[j],
            ) by {
                assert(rest[j - 1] == s[j]);
            }
        } else {
            assert forall|j: int| 0 <= j < s.len() implies text_less(x, #[trigger] s[j]) by {
                if j > 0 {
                    assert(text_less(s[0], s[j]));
                    lemma_text_less_transitive(x, s[0], s[j]);
                }
            }
        }
    }
}

/// Every finite set of texts is listed in dictionary order by `sorted_texts`: each
/// member once, and nothing else.
pub proof fn lemma_texts_are_listed(d: Set<Seq<char>>)
    requires
        d.finite(),
    ensures
        lists_texts(sorted_texts(d), d),
    decreases d.len(),
{
    if d.len() == 0 {
        assert(d =~= Set::<Seq<char>>::empty());
        assert(lists_texts(Seq::<Seq<char>>::empty(), d));
    } else {
        let x = d.choose();
        let s = sorted_texts(d.remove(x));
        lemma_texts_are_listed(d.remove(x));
        assert(d.contains(x));
        assert(!s.contains(x)) by {
            assert(!d.remove(x).contains(x));
        }
        lemma_texts_below(s, x);
        let i = texts_below(s, x) as int;
        let t = s.take(i).push(x) + s.skip(i);
        assert forall|k: Seq<char>| #[trigger] d.contains(k) <==> t.contains(k) by {
            if t.contains(k) {
                let j = choose|j: int| 0 <= j < t.len() && t[j] == k;
                if j < i {
                    assert(s[j] == k);
                } else if j > i {
                    assert(s[j - 1] == k);
                }
                assert(k == x || s.contains(k));
                assert(s.contains(k) ==> d.remove(x).contains(k));
            }
            if d.contains(k) {
                if k == x {
                    assert(t[i] == k);
                } else {
                    assert(d.remove(x).contains(k));
                    let j = choose|j: int| 0 <= j < s.len() && s[j] == k;
                    if j < i {
                        assert(t[j] == k);
                    } else {
                        assert(t[j + 1] == k);
                    }
                }
            }
        }
        assert forall|a: int, b: int| 0 <= a < b < t.len() implies text_less(
            #[trigger] t[a],
            #[trigger] t[b],
        ) by {
            let a1 = if a < i {
                a
            } else {
                a - 1
            };
            let b1 = if b < i {
                b
            } else {
                b - 1
            };
            if a != i {
                assert(t[a] == s[a1]);
            }
            if b != i {
                assert(t[b] == s[b1]);
            }
            if a != i && b != i {
                assert(text_less(s[a1], s[b1]));
            }
        }
        assert(lists_texts(t, d));
    }
}

/// Adds a text to an ordered list, unless it is there.
pub fn add_text(v: &mut Vec<String>, t: &str)
    requires
        ascending_texts(seq_views(old(v)@)),
    ensures
        ascending_texts(seq_views(final(v)@)),
        forall|x: Seq<char>| #[trigger]
            seq_views(final(v)@).contains(x) <==> seq_views(old(v)@).contains(x) || x == t@,
{
    let ghost before = seq_views(v@);
    let mut i: usize = 0;
    while i < v.len() && text_before(v[i].as_str(), t)
        invariant
            i <= v@.len(),
            seq_views(v@) == before,
            forall|k: int| 0 <= k < i ==> text_less(#[trigger] before[k], t@),
        decreases v@.len() - i,
    {
        assert(before[i as int] == v@[i as int]@);
        i = i + 1;
    }
    if i < v.len() && same_text(v[i].as_str(), t) {
        assert(before[i as int] == t@);
        return ;
    }
    proof {
        if i < v@.len() {
            lemma_text_less_total(before[i as int], t@);
        }
        assert forall|k: int| i <= k < before.len() implies text_less(t@, #[trigger] before[k]) by {
            if k > i {
                assert(text_less(before[i as int], before[k]));
                lemma_text_less_transitive(t@, before[i as int], before[k]);
            }
        }
    }
    v.insert(i, String::from_str(t));
    proof {
        let after = seq_views(v@);
        assert(after =~= before.insert(i as int, t@));
        assert forall|x: Seq<char>| #[trigger]
            after.contains(x) <==> before.contains(x) || x == t@ by {
            if before.contains(x) {
                let k = choose|k: int| 0 <= k < before.len() && before[k] == x;
                if k < i {
                    assert(after[k] == x);
                } else {
                    assert(after[k + 1] == x);
                }
            }
            if x == t@ {
                assert(after[i as int] == x);
            }
            if after.contains(x) {
                let k = choose|k: int| 0 <= k < after.len() && after[k] == x;
                if k < i {
                    assert(before[k] == x);
                } else if k > i {
                    assert(before[k - 1] == x);
                }
            }
        }
    }
}

/// Adds every text of a list.
pub fn add_texts(v: &mut Vec<String>, more: &Vec<String>)
    requires
        ascending_texts(seq_views(old(v)@)),
    ensures
        ascending_texts(seq_views(final(v)@)),
        forall|x: Seq<char>| #[trigger]
            seq_views(final(v)@).contains(x) <==> seq_views(old(v)@).contains(x) || seq_views(
                more@,
            ).contains(x),
{
    let ghost before = seq_views(v@);
    let ghost added = seq_views(more@);
    let mut i: usize = 0;
    while i < more.len()
        invariant
            i <= more@.len(),
            added == seq_views(more@),
            ascending_texts(seq_views(v@)),
            forall|x: Seq<char>| #[trigger]
                seq_views(v@).contains(x) <==> before.contains(x) || added.take(i as int).contains(
                    x,
                ),
        decreases more@.len() - i,
    {
        let ghost head = added.take(i as int);
        add_text(v, more[i].as_str());
        proof {
            let next = added.take(i + 1);
            assert(next.drop_last() =~= head);
            lemma_last_contained(next);
        }
        i = i + 1;
    }
    assert(added.take(i as int) =~= added);
}

} // verus!
