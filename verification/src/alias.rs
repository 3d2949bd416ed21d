//! Shorthand names for agents.
use vstd::prelude::*;
use vstd::string::*;

use crate::text::same_text;

verus! {

/// Daemon-lifetime aliases: shorthand to agent id.
#[derive(Debug, PartialEq)]
pub struct AliasTable {
    entries: Vec<(String, String)>,
}

/// The entries as a map; the first entry of a name counts.
spec fn entries_map(s: Seq<(String, String)>) -> Map<Seq<char>, Seq<char>>
    decreases s.len(),
{
    if s.len() == 0 {
        Map::empty()
    } else {
        entries_map(s.drop_last()).insert(s.last().0@, s.last().1@)
    }
}

spec fn distinct(s: Seq<(String, String)>) -> bool {
    forall|i: int, j: int| 0 <= i < j < s.len() ==> (#[trigger] s[i]).0@ != (#[trigger] s[j]).0@
}

proof fn lemma_entries(s: Seq<(String, String)>)
    requires
        distinct(s),
    ensures
        forall|i: int|
            0 <= i < s.len() ==> entries_map(s).contains_key((#[trigger] s[i]).0@) && entries_map(
                s,
            )[s[i].0@] == s[i].1@,
        forall|x: Seq<char>| #[trigger]
            entries_map(s).contains_key(x) ==> exists|i: int| 0 <= i < s.len() && s[i].0@ == x,
    decreases s.len(),
{
    if s.len() > 0 {
        let head = s.drop_last();
        lemma_entries(head);
        assert forall|i: int| 0 <= i < s.len() implies entries_map(s).contains_key(
            (#[trigger] s[i]).0@,
        ) && entries_map(s)[s[i].0@] == s[i].1@ by {
            if i < s.len() - 1 {
                assert(head[i] == s[i]);
            }
        }
        assert forall|x: Seq<char>| #[trigger] entries_map(s).contains_key(x) implies exists|i: int|
            0 <= i < s.len() && s[i].0@ == x by {
            if x == s.last().0@ {
                assert(s[s.len() - 1].0@ == x);
            } else {
                assert(entries_map(head).contains_key(x));
                let i = choose|i: int| 0 <= i < head.len() && head[i].0@ == x;
                assert(s[i].0@ == x);
            }
        }
    }
}

impl View for AliasTable {
    type V = Map<Seq<char>, Seq<char>>;

    closed spec fn view(&self) -> Map<Seq<char>, Seq<char>> {
        entries_map(self.entries@)
    }
}

impl AliasTable {
    #[verifier::type_invariant]
    spec fn inv(self) -> bool {
        distinct(self.entries@)
    }

    pub fn new() -> (t: Self)
        ensures
            t@ == Map::<Seq<char>, Seq<char>>::empty(),
    {
        AliasTable { entries: Vec::new() }
    }

    fn position(&self, name: &str) -> (r: Option<usize>)
        ensures
            match r {
                Some(i) => i < self.entries@.len() && self.entries@[i as int].0@ == name@
                    && self@.contains_key(name@) && self@[name@] == self.entries@[i as int].1@,
                None => !self@.contains_key(name@),
            },
    {
        proof {
            use_type_invariant(self);
            lemma_entries(self.entries@);
        }
        let mut i: usize = 0;
        while i < self.entries.len()
            invariant
                i <= self.entries@.len(),
                forall|k: int| 0 <= k < i ==> (#[trigger] self.entries@[k]).0@ != name@,
                distinct(self.entries@),
            decreases self.entries@.len() - i,
        {
            if same_text(self.entries[i].0.as_str(), name) {
                proof {
                    lemma_entries(self.entries@);
                }
                return Some(i);
            }
            i = i + 1;
        }
        None
    }

    pub fn contains(&self, name: &str) -> (r: bool)
        ensures
            r == self@.contains_key(name@),
    {
        self.position(name).is_some()
    }

    /// The agent behind a name.
    pub fn owner(&self, name: &str) -> (r: Option<String>)
        ensures
            match r {
                Some(owner) => self@.contains_key(name@) && owner@ == self@[name@],
                None => !self@.contains_key(name@),
            },
    {
        match self.position(name) {
            Some(i) => Some(self.entries[i].1.clone()),
            None => None,
        }
    }

    pub fn remove(&mut self, name: &str)
        ensures
            final(self)@ == old(self)@.remove(name@),
    {
        let mut kept: Vec<(String, String)> = Vec::new();
        let mut i: usize = 0;
        proof {
            use_type_invariant(&*self);
        }
        assert(entries_map(self.entries@.take(0)).remove(name@) =~= Map::empty());
        while i < self.entries.len()
            invariant
                i <= self.entries@.len(),
                self.entries@ == old(self).entries@,
                distinct(self.entries@),
                distinct(kept@),
                forall|k: int|
                    0 <= k < kept@.len() ==> exists|m: int|
                        0 <= m < i && (#[trigger] kept@[k]).0@ == self.entries@[m].0@,
                entries_map(kept@) == entries_map(self.entries@.take(i as int)).remove(name@),
            decreases self.entries@.len() - i,
        {
            let ghost head = self.entries@.take(i as int);
            let ghost next = self.entries@.take(i + 1);
            let ghost before = kept@;
            proof {
                assert(next.drop_last() =~= head);
                assert(next.last() == self.entries@[i as int]);
            }
            if !same_text(self.entries[i].0.as_str(), name) {
                kept.push((self.entries[i].0.clone(), self.entries[i].1.clone()));
                proof {
                    assert(kept@.drop_last() =~= before);
                    assert forall|a: int, b: int| 0 <= a < b < kept@.len() implies (
                    #[trigger] kept@[a]).0@ != (#[trigger] kept@[b]).0@ by {
                        if b == before.len() {
                            assert(kept@[a] == before[a]);
                            let m = choose|m: int|
                                0 <= m < i && before[a].0@ == self.entries@[m].0@;
                            assert(self.entries@[m].0@ != self.entries@[i as int].0@);
                        }
                    }
                    assert forall|k: int| 0 <= k < kept@.len() implies exists|m: int|
                        0 <= m < i + 1 && (#[trigger] kept@[k]).0@ == self.entries@[m].0@ by {
                        if k < before.len() {
                            assert(kept@[k] == before[k]);
                            let m = choose|m: int|
                                0 <= m < i && before[k].0@ == self.entries@[m].0@;
                            assert(kept@[k].0@ == self.entries@[m].0@);
                        } else {
                            assert(kept@[k].0@ == self.entries@[i as int].0@);
                        }
                    }
                    assert(entries_map(kept@) =~= entries_map(next).remove(name@));
                }
            } else {
                proof {
                    assert forall|k: int| 0 <= k < kept@.len() implies exists|m: int|
                        0 <= m < i + 1 && (#[trigger] kept@[k]).0@ == self.entries@[m].0@ by {
                        let m = choose|m: int| 0 <= m < i && before[k].0@ == self.entries@[m].0@;
                        assert(kept@[k].0@ == self.entries@[m].0@);
                    }
                    assert(entries_map(kept@) =~= entries_map(next).remove(name@));
                }
            }
            i = i + 1;
        }
        assert(self.entries@.take(i as int) =~= self.entries@);
        self.entries = kept;
    }

    pub fn insert(&mut self, name: &str, owner: &str)
        ensures
            final(self)@ == old(self)@.insert(name@, owner@),
    {
        self.remove(name);
        let mut entries: Vec<(String, String)> = self.copy_entries();
        let ghost before = entries@;
        proof {
            lemma_entries(before);
        }
        entries.push((String::from_str(name), String::from_str(owner)));
        proof {
            assert(entries@.drop_last() =~= before);
            assert forall|a: int, b: int| 0 <= a < b < entries@.len() implies (
            #[trigger] entries@[a]).0@ != (#[trigger] entries@[b]).0@ by {
                if b == before.len() {
                    assert(entries@[a] == before[a]);
                    assert(entries_map(before).contains_key(before[a].0@));
                }
            }
            assert(old(self)@.remove(name@).insert(name@, owner@) =~= old(self)@.insert(
                name@,
                owner@,
            ));
        }
        self.entries = entries;
    }

    fn copy_entries(&self) -> (v: Vec<(String, String)>)
        ensures
            distinct(v@),
            entries_map(v@) == self@,
    {
        proof {
            use_type_invariant(self);
        }
        let mut v: Vec<(String, String)> = Vec::new();
        let mut i: usize = 0;
        while i < self.entries.len()
            invariant
                i <= self.entries@.len(),
                distinct(self.entries@),
                v@.len() == i,
                forall|k: int|
                    0 <= k < i ==> (#[trigger] v@[k]).0@ == self.entries@[k].0@ && v@[k].1@
                        == self.entries@[k].1@,
                entries_map(v@) == entries_map(self.entries@.take(i as int)),
            decreases self.entries@.len() - i,
        {
            let ghost before = v@;
            v.push((self.entries[i].0.clone(), self.entries[i].1.clone()));
            proof {
                let next = self.entries@.take(i + 1);
                assert(next.drop_last() =~= self.entries@.take(i as int));
                assert(v@.drop_last() =~= before);
            }
            i = i + 1;
        }
        assert(self.entries@.take(i as int) =~= self.entries@);
        v
    }

    /// Gives the names of one agent to another.
    pub fn reassign(&mut self, from: &str, to: &str)
        ensures
            final(self)@ == reassigned(old(self)@, from@, to@),
    {
        proof {
            use_type_invariant(&*self);
        }
        let mut v: Vec<(String, String)> = Vec::new();
        let mut i: usize = 0;
        let ghost start = self.entries@;
        assert(entries_map(v@) =~= reassigned(entries_map(start.take(0)), from@, to@));
        while i < self.entries.len()
            invariant
                i <= self.entries@.len(),
                self.entries@ == start,
                start == old(self).entries@,
                distinct(start),
                v@.len() == i,
                forall|k: int| 0 <= k < i ==> (#[trigger] v@[k]).0@ == start[k].0@,
                entries_map(v@) == reassigned(entries_map(start.take(i as int)), from@, to@),
            decreases self.entries@.len() - i,
        {
            let ghost before = v@;
            let owner: String = if same_text(self.entries[i].1.as_str(), from) {
                String::from_str(to)
            } else {
                self.entries[i].1.clone()
            };
            v.push((self.entries[i].0.clone(), owner));
            proof {
                let next = start.take(i + 1);
                assert(next.drop_last() =~= start.take(i as int));
                assert(next.last() == start[i as int]);
                assert(v@.drop_last() =~= before);
                assert(entries_map(v@) =~= reassigned(entries_map(next), from@, to@));
            }
            i = i + 1;
        }
        proof {
            assert(start.take(i as int) =~= start);
            assert forall|a: int, b: int| 0 <= a < b < v@.len() implies (#[trigger] v@[a]).0@ != (
            #[trigger] v@[b]).0@ by {
                assert(start[a].0@ != start[b].0@);
            }
        }
        self.entries = v;
    }

    /// The names of one agent, or all names.
    pub fn names(&self, owner: Option<&str>) -> (v: Vec<String>)
        ensures
            forall|x: Seq<char>| #[trigger]
                crate::model::seq_views(v@).contains(x) <==> self@.contains_key(x) && (owner is None
                    || self@[x] == owner->0@),
    {
        proof {
            use_type_invariant(self);
            lemma_entries(self.entries@);
        }
        let mut v: Vec<String> = Vec::new();
        let mut i: usize = 0;
        while i < self.entries.len()
            invariant
                i <= self.entries@.len(),
                distinct(self.entries@),
                forall|k: int|
                    0 <= k < i && (owner is None || self.entries@[k].1@ == owner->0@)
                        ==> crate::model::seq_views(v@).contains((#[trigger] self.entries@[k]).0@),
                forall|n: int|
                    0 <= n < v@.len() ==> exists|k: int|
                        0 <= k < i && (#[trigger] v@[n])@ == self.entries@[k].0@ && (owner is None
                            || self.entries@[k].1@ == owner->0@),
            decreases self.entries@.len() - i,
        {
            let take: bool = match owner {
                None => true,
                Some(o) => same_text(self.entries[i].1.as_str(), o),
            };
            let ghost before = v@;
            if take {
                v.push(self.entries[i].0.clone());
            }
            proof {
                let now = crate::model::seq_views(v@);
                let was = crate::model::seq_views(before);
                assert forall|k: int|
                    0 <= k < i + 1 && (owner is None || self.entries@[k].1@
                        == owner->0@) implies now.contains((#[trigger] self.entries@[k]).0@) by {
                    if k < i {
                        assert(was.contains(self.entries@[k].0@));
                        let n = choose|n: int|
                            0 <= n < was.len() && was[n] == self.entries@[k].0@;
                        assert(now[n] == self.entries@[k].0@);
                    } else {
                        assert(now[before.len() as int] == self.entries@[k].0@);
                    }
                }
                assert forall|n: int| 0 <= n < v@.len() implies exists|k: int|
                    0 <= k < i + 1 && (#[trigger] v@[n])@ == self.entries@[k].0@ && (owner is None
                        || self.entries@[k].1@ == owner->0@) by {
                    if n < before.len() {
                        assert(v@[n] == before[n]);
                        let k = choose|k: int|
                            0 <= k < i && before[n]@ == self.entries@[k].0@ && (owner is None
                                || self.entries@[k].1@ == owner->0@);
                        assert(v@[n]@ == self.entries@[k].0@);
                    } else {
                        assert(v@[n]@ == self.entries@[i as int].0@);
                    }
                }
            }
            i = i + 1;
        }
        proof {
            lemma_entries(self.entries@);
            let now = crate::model::seq_views(v@);
            assert forall|x: Seq<char>| #[trigger]
                now.contains(x) <==> self@.contains_key(x) && (owner is None || self@[x]
                    == owner->0@) by {
                if now.contains(x) {
                    let n = choose|n: int| 0 <= n < now.len() && now[n] == x;
                    assert(v@[n]@ == x);
                    let k = choose|k: int|
                        0 <= k < i && v@[n]@ == self.entries@[k].0@ && (owner is None
                            || self.entries@[k].1@ == owner->0@);
                    assert(self@.contains_key(self.entries@[k].0@));
                }
                if self@.contains_key(x) && (owner is None || self@[x] == owner->0@) {
                    let k = choose|k: int|
                        0 <= k < self.entries@.len() && self.entries@[k].0@ == x;
                    assert(self@[self.entries@[k].0@] == self.entries@[k].1@);
                }
            }
        }
        v
    }
}

/// A table in which the names of `from` belong to `to`.
pub open spec fn reassigned(
    m: Map<Seq<char>, Seq<char>>,
    from: Seq<char>,
    to: Seq<char>,
) -> Map<Seq<char>, Seq<char>> {
    Map::new(
        |n: Seq<char>| m.contains_key(n),
        |n: Seq<char>|
            if m[n] == from {
                to
            } else {
                m[n]
            },
    )
}

} // verus!
