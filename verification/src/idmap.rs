//! Maps keyed by ids and listed by ascending id.
use std::collections::BTreeMap;
use vstd::prelude::*;
use vstd::std_specs::cmp::OrdSpec;
use vstd::std_specs::iter::IteratorSpec;

verus! {

pub open spec fn ascending(s: Seq<u64>) -> bool {
    forall|i: int, j: int| 0 <= i < j < s.len() ==> s[i] < s[j]
}

/// `s` lists the members of `d` by ascending id.
pub open spec fn lists_ids(s: Seq<u64>, d: Set<u64>) -> bool {
    &&& ascending(s)
    &&& forall|k: u64| #[trigger] d.contains(k) <==> s.contains(k)
}

/// The members of a set of ids, in ascending order.
pub open spec fn sorted_ids(d: Set<u64>) -> Seq<u64> {
    choose|s: Seq<u64>| lists_ids(s, d)
}

/// At most one ascending list has given members.
pub proof fn lemma_ascending_unique(a: Seq<u64>, b: Seq<u64>)
    requires
        ascending(a),
        ascending(b),
        forall|k: u64| a.contains(k) <==> b.contains(k),
    ensures
        a == b,
    decreases a.len(),
{
    if a.len() == 0 {
        if b.len() > 0 {
            assert(b.contains(b[0]));
            assert(a.contains(b[0]));
        }
        assert(a =~= b);
    } else {
        assert(a.contains(a.last()));
        assert(b.contains(a.last()));
        assert(b.contains(b.last()));
        assert(a.contains(b.last()));
        let i = choose|i: int| 0 <= i < b.len() && b[i] == a.last();
        let j = choose|j: int| 0 <= j < a.len() && a[j] == b.last();
        assert(a.last() == b.last());
        let a1 = a.drop_last();
        let b1 = b.drop_last();
        assert forall|k: u64| a1.contains(k) <==> b1.contains(k) by {
            if a1.contains(k) {
                let x = choose|x: int| 0 <= x < a1.len() && a1[x] == k;
                assert(a[x] == k);
                assert(a.contains(k));
                let y = choose|y: int| 0 <= y < b.len() && b[y] == k;
                assert(b1[y] == k);
            }
            if b1.contains(k) {
                let x = choose|x: int| 0 <= x < b1.len() && b1[x] == k;
                assert(b[x] == k);
                assert(b.contains(k));
                let y = choose|y: int| 0 <= y < a.len() && a[y] == k;
                assert(a1[y] == k);
            }
        }
        lemma_ascending_unique(a1, b1);
        assert(a =~= a1.push(a.last()));
        assert(b =~= b1.push(b.last()));
    }
}

/// How many of the ids at the front are below `x`.
spec fn ids_below(s: Seq<u64>, x: u64) -> nat
    decreases s.len(),
{
    if s.len() == 0 || s[0] >= x {
        0
    } else {
        1 + ids_below(s.drop_first(), x)
    }
}

proof fn lemma_ids_below(s: Seq<u64>, x: u64)
    requires
        ascending(s),
    ensures
        ids_below(s, x) <= s.len(),
        forall|j: int| 0 <= j < ids_below(s, x) ==> #[trigger] s[j] < x,
        forall|j: int| ids_below(s, x) <= j < s.len() ==> #[trigger] s[j] >= x,
    decreases s.len(),
{
    if s.len() > 0 && s[0] < x {
        let rest = s.drop_first();
        lemma_ids_below(rest, x);
        assert forall|j: int| 0 <= j < ids_below(s, x) implies #[trigger] s[j] < x by {
            if j > 0 {
                assert(rest[j - 1] == s[j]);
            }
        }
        assert forall|j: int| ids_below(s, x) <= j < s.len() implies #[trigger] s[j] >= x by {
            assert(rest[j - 1] == s[j]);
        }
    }
}

/// There are finitely many ids.
proof fn lemma_ids_are_finite(d: Set<u64>)
    ensures
        d.finite(),
{
    let ids = vstd::set_lib::set_int_range(0, u64::MAX + 1);
    vstd::set_lib::lemma_int_range(0, u64::MAX + 1);
    ids.lemma_map_finite(|i: int| i as u64);
    let all = ids.map(|i: int| i as u64);
    assert forall|k: u64| #[trigger] d.contains(k) implies all.contains(k) by {
        assert(ids.contains(k as int));
        assert((k as int) as u64 == k);
    }
    vstd::set_lib::lemma_set_subset_finite(all, d);
}

/// Every set of ids is listed in ascending order by `sorted_ids`: each member once, and
/// nothing else.
pub broadcast proof fn lemma_ids_are_listed(d: Set<u64>)
    ensures
        lists_ids(#[trigger] sorted_ids(d), d),
{
    lemma_ids_are_finite(d);
    lemma_finite_ids_are_listed(d);
}

proof fn lemma_finite_ids_are_listed(d: Set<u64>)
    requires
        d.finite(),
    ensures
        lists_ids(sorted_ids(d), d),
    decreases d.len(),
{
    if d.len() == 0 {
        assert(d =~= Set::<u64>::empty());
        assert(lists_ids(Seq::<u64>::empty(), d));
    } else {
        let x = d.choose();
        let s = sorted_ids(d.remove(x));
        lemma_finite_ids_are_listed(d.remove(x));
        assert(d.contains(x));
        lemma_ids_below(s, x);
        let i = ids_below(s, x) as int;
        let t = s.take(i).push(x) + s.skip(i);
        assert forall|k: u64| #[trigger] d.contains(k) <==> t.contains(k) by {
            if t.contains(k) {
                let j = choose|j: int| 0 <= j < t.len() && t[j] == k;
                if j < i {
                    assert(s[j] == k);
                } else if j > i {
                    assert(s[j - 1] == k);
                }
                assert(k == x || s.contains(k));
                assert(s.contains(k) ==> d.remove(x).contains(k));
            }
            if d.contains(k) {
                if k == x {
                    assert(t[i] == k);
                } else {
                    assert(d.remove(x).contains(k));
                    let j = choose|j: int| 0 <= j < s.len() && s[j] == k;
                    if j < i {
                        assert(t[j] == k);
                    } else {
                        assert(t[j + 1] == k);
                    }
                }
            }
        }
        assert(!s.contains(x)) by {
            assert(!d.remove(x).contains(x));
        }
        assert(ascending(t)) by {
            assert forall|j: int| i <= j < s.len() implies #[trigger] s[j] > x by {
                if s[j] == x {
                    assert(s.contains(x));
                }
            }
        }
        assert(lists_ids(t, d));
    }
}

/// Whatever lists the members in ascending order is `sorted_ids`.
pub proof fn lemma_sorted_ids(s: Seq<u64>, d: Set<u64>)
    requires
        lists_ids(s, d),
    ensures
        sorted_ids(d) == s,
        lists_ids(sorted_ids(d), d),
{
    let t = sorted_ids(d);
    assert(lists_ids(t, d));
    assert forall|k: u64| s.contains(k) <==> t.contains(k) by {
        assert(d.contains(k) <==> s.contains(k));
        assert(d.contains(k) <==> t.contains(k));
    }
    lemma_ascending_unique(s, t);
}

/// The listed ids whose flag is set, in the same order.
pub fn pick_ids(ids: &Vec<u64>, keep: &Vec<bool>) -> (r: Vec<u64>)
    requires
        ascending(ids@),
        ids@.len() == keep@.len(),
    ensures
        ascending(r@),
        forall|k: u64| #[trigger]
            r@.contains(k) <==> exists|i: int| 0 <= i < ids@.len() && keep@[i] && ids@[i] == k,
{
    let mut r: Vec<u64> = Vec::new();
    let mut i: usize = 0;
    while i < ids.len()
        invariant
            i <= ids@.len() == keep@.len(),
            ascending(ids@),
            ascending(r@),
            forall|k: u64| #[trigger]
                r@.contains(k) <==> exists|n: int| 0 <= n < i && keep@[n] && ids@[n] == k,
        decreases ids@.len() - i,
    {
        let ghost before = r@;
        if keep[i] {
            r.push(ids[i]);
        }
        proof {
            assert forall|a: int, b: int| 0 <= a < b < r@.len() implies r@[a] < r@[b] by {
                if b == before.len() {
                    assert(before.contains(before[a]));
                    let n = choose|n: int| 0 <= n < i && keep@[n] && ids@[n] == before[a];
                    assert(ids@[n] < ids@[i as int]);
                } else {
                    assert(before[a] < before[b]);
                }
            }
            assert forall|k: u64| #[trigger]
                r@.contains(k) <==> exists|n: int| 0 <= n < i + 1 && keep@[n] && ids@[n] == k by {
                if r@.contains(k) {
                    let x = choose|x: int| 0 <= x < r@.len() && r@[x] == k;
                    if x < before.len() {
                        assert(before.contains(before[x]));
                        let n = choose|n: int| 0 <= n < i && keep@[n] && ids@[n] == k;
                        assert(keep@[n] && ids@[n] == k);
                    } else {
                        assert(keep@[i as int] && ids@[i as int] == k);
                    }
                }
                if exists|n: int| 0 <= n < i + 1 && keep@[n] && ids@[n] == k {
                    let n = choose|n: int| 0 <= n < i + 1 && keep@[n] && ids@[n] == k;
                    if n < i {
                        assert(before.contains(k));
                        let x = choose|x: int| 0 <= x < before.len() && before[x] == k;
                        assert(r@[x] == k);
                    } else {
                        assert(r@[before.len() as int] == k);
                    }
                }
            }
        }
        i = i + 1;
    }
    r
}

/// Picking by membership lists the members of a set.
pub proof fn lemma_picked(ids: Seq<u64>, keep: Seq<bool>, r: Seq<u64>, all: Set<u64>, d: Set<u64>)
    requires
        lists_ids(ids, all),
        ids.len() == keep.len(),
        ascending(r),
        forall|k: u64| #[trigger]
            r.contains(k) <==> exists|i: int| 0 <= i < ids.len() && keep[i] && ids[i] == k,
        forall|i: int| 0 <= i < ids.len() ==> #[trigger] keep[i] == d.contains(ids[i]),
        forall|k: u64| #[trigger] d.contains(k) ==> all.contains(k),
    ensures
        lists_ids(r, d),
        r == sorted_ids(d),
{
    assert forall|k: u64| #[trigger] d.contains(k) <==> r.contains(k) by {
        if d.contains(k) {
            assert(all.contains(k));
            assert(ids.contains(k));
            let i = choose|i: int| 0 <= i < ids.len() && ids[i] == k;
            assert(keep[i] && ids[i] == k);
        }
        if r.contains(k) {
            let i = choose|i: int| 0 <= i < ids.len() && keep[i] && ids[i] == k;
            assert(keep[i] == d.contains(ids[i]));
        }
    }
    lemma_sorted_ids(r, d);
}

/// The same map with each value taken by its view.
pub open spec fn views<V: View>(m: Map<u64, V>) -> Map<u64, V::V> {
    Map::new(|k: u64| m.contains_key(k), |k: u64| m[k]@)
}

pub broadcast proof fn lemma_views_insert<V: View>(m: Map<u64, V>, k: u64, v: V)
    ensures
        #[trigger] views(m.insert(k, v)) == views(m).insert(k, v@),
{
    assert(views(m.insert(k, v)) =~= views(m).insert(k, v@));
}

pub broadcast proof fn lemma_views_remove<V: View>(m: Map<u64, V>, k: u64)
    ensures
        #[trigger] views(m.remove(k)) == views(m).remove(k),
{
    assert(views(m.remove(k)) =~= views(m).remove(k));
}

pub broadcast proof fn lemma_views_empty<V: View>()
    ensures
        #[trigger] views(Map::<u64, V>::empty()) == Map::<u64, V::V>::empty(),
{
    assert(views(Map::<u64, V>::empty()) =~= Map::<u64, V::V>::empty());
}

pub broadcast proof fn lemma_views_dom<V: View>(m: Map<u64, V>)
    ensures
        (#[trigger] views(m)).dom() == m.dom(),
{
    assert(views(m).dom() =~= m.dom());
}

pub broadcast group group_views {
    lemma_views_insert,
    lemma_views_remove,
    lemma_views_empty,
    lemma_views_dom,
}

/// A map from ids to values, listed in ascending order of id.
#[derive(Debug, PartialEq)]
pub struct IdMap<V> {
    entries: BTreeMap<u64, V>,
}

impl<V> View for IdMap<V> {
    type V = Map<u64, V>;

    closed spec fn view(&self) -> Map<u64, V> {
        self.entries@
    }
}

/// The ids of a listing of pairs.
spec fn pair_ids<V>(pairs: Seq<(&u64, &V)>) -> Seq<u64> {
    pairs.map_values(|p: (&u64, &V)| *p.0)
}

/// What a map yields is a listing of its keys in ascending order.
proof fn lemma_pair_ids<V>(pairs: Seq<(&u64, &V)>, m: Map<u64, V>)
    requires
        vstd::std_specs::btree::increasing_seq(pair_ids(pairs)),
        forall|i: int|
            #![trigger m.contains_key(*pairs[i].0)]
            0 <= i < pairs.len() ==> m.contains_key(*pairs[i].0),
        forall|k: u64| #[trigger] m.contains_key(k) ==> pairs.contains((&k, &m[k])),
    ensures
        lists_ids(pair_ids(pairs), m.dom()),
        pair_ids(pairs) == sorted_ids(m.dom()),
{
    let ids = pair_ids(pairs);
    assert forall|i: int, j: int| 0 <= i < j < ids.len() implies ids[i] < ids[j] by {
        assert(ids[i].cmp_spec(&ids[j]) is Less);
    }
    assert forall|k: u64| #[trigger] m.dom().contains(k) <==> ids.contains(k) by {
        if m.contains_key(k) {
            let i = choose|i: int| 0 <= i < pairs.len() && pairs[i] == (&k, &m[k]);
            assert(ids[i] == k);
        }
        if ids.contains(k) {
            let i = choose|i: int| 0 <= i < ids.len() && ids[i] == k;
            assert(m.contains_key(*pairs[i].0));
        }
    }
    lemma_sorted_ids(ids, m.dom());
}

impl<V> IdMap<V> {
    pub fn new() -> (m: Self)
        ensures
            m@ == Map::<u64, V>::empty(),
    {
        IdMap { entries: BTreeMap::new() }
    }

    /// The keys, by ascending id.
    pub fn keys(&self) -> (v: Vec<u64>)
        ensures
            v@ == sorted_ids(self@.dom()),
            lists_ids(v@, self@.dom()),
    {
        let mut v: Vec<u64> = Vec::new();
        let pairs = self.entries.iter();
        let ghost all = pairs.remaining();
        proof {
            lemma_pair_ids(all, self.entries@);
        }
        for pair in it: pairs
            invariant
                it.seq() == all,
                v@ == pair_ids(all).take(it.index()),
        {
            v.push(*pair.0);
            assert(v@ =~= pair_ids(all).take(it.index() + 1));
        }
        assert(v@ =~= pair_ids(all));
        v
    }

    /// The smallest key.
    pub fn first_key(&self) -> (r: Option<u64>)
        ensures
            match r {
                Some(k) => sorted_ids(self@.dom()).len() > 0 && k == sorted_ids(self@.dom())[0]
                    && self@.contains_key(k),
                None => sorted_ids(self@.dom()).len() == 0,
            },
    {
        let ids: Vec<u64> = self.keys();
        if ids.len() == 0 {
            None
        } else {
            assert(ids@.contains(ids@[0]));
            Some(ids[0])
        }
    }

    pub fn contains_key(&self, k: u64) -> (r: bool)
        ensures
            r == self@.contains_key(k),
    {
        self.entries.contains_key(&k)
    }

    pub fn get(&self, k: u64) -> (r: Option<&V>)
        ensures
            match r {
                Some(v) => self@.contains_key(k) && *v == self@[k],
                None => !self@.contains_key(k),
            },
    {
        self.entries.get(&k)
    }

    /// Binds `k` to `v`; the former value comes back.
    pub fn insert(&mut self, k: u64, v: V) -> (r: Option<V>)
        ensures
            final(self)@ == old(self)@.insert(k, v),
            match r {
                Some(prior) => old(self)@.contains_key(k) && prior == old(self)@[k],
                None => !old(self)@.contains_key(k),
            },
    {
        self.entries.insert(k, v)
    }

    /// Unbinds `k`; its value comes back.
    pub fn remove(&mut self, k: u64) -> (r: Option<V>)
        ensures
            final(self)@ == old(self)@.remove(k),
            match r {
                Some(prior) => old(self)@.contains_key(k) && prior == old(self)@[k],
                None => !old(self)@.contains_key(k),
            },
    {
        self.entries.remove(&k)
    }
}

} // verus!
