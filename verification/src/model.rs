//! Mathematical models of lists and optional values.
use vstd::prelude::*;

verus! {

/// A list with each element taken by its view.
pub open spec fn seq_views<V: View>(s: Seq<V>) -> Seq<V::V> {
    Seq::new(s.len(), |i: int| s[i]@)
}

/// A list contains what the list without its last element contains, and that
/// element.
pub proof fn lemma_last_contained<A>(s: Seq<A>)
    requires
        s.len() > 0,
    ensures
        s.contains(s.last()),
        forall|x: A|
            #![trigger s.contains(x)]
            #![trigger s.drop_last().contains(x)]
            s.contains(x) <==> s.drop_last().contains(x) || x == s.last(),
{
    let head = s.drop_last();
    assert(s[s.len() - 1] == s.last());
    assert forall|x: A|
        #![trigger s.contains(x)]
        #![trigger head.contains(x)]
        s.contains(x) <==> head.contains(x) || x == s.last() by {
        if head.contains(x) {
            let k = choose|k: int| 0 <= k < head.len() && head[k] == x;
            assert(s[k] == x);
        }
        if s.contains(x) {
            let k = choose|k: int| 0 <= k < s.len() && s[k] == x;
            if k < head.len() {
                assert(head[k] == x);
            }
        }
    }
}

/// An optional value taken by its view.
pub open spec fn option_view<V: View>(o: Option<V>) -> Option<V::V> {
    match o {
        Some(v) => Some(v@),
        None => None,
    }
}

pub broadcast proof fn lemma_seq_views_push<V: View>(s: Seq<V>, v: V)
    ensures
        #[trigger] seq_views(s.push(v)) == seq_views(s).push(v@),
{
    assert(seq_views(s.push(v)) =~= seq_views(s).push(v@));
}

pub broadcast proof fn lemma_seq_views_empty<V: View>()
    ensures
        #[trigger] seq_views(Seq::<V>::empty()) == Seq::<V::V>::empty(),
{
    assert(seq_views(Seq::<V>::empty()) =~= Seq::<V::V>::empty());
}

pub broadcast proof fn lemma_seq_views_len<V: View>(s: Seq<V>)
    ensures
        (#[trigger] seq_views(s)).len() == s.len(),
{
}

pub broadcast group group_seq_views {
    lemma_seq_views_push,
    lemma_seq_views_empty,
    lemma_seq_views_len,
}

} // verus!
