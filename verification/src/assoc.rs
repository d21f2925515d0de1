//! An association list keyed by strings, viewed as a map from character
//! sequences to values. Both process registries and the writer's open-store
//! table are instances of it.

use vstd::prelude::*;

use crate::strutil::str_eq;

verus! {

/// The map described by a sequence of key-value pairs, later pairs winning.
pub open spec fn assoc_map<V>(s: Seq<(String, V)>) -> Map<Seq<char>, V>
    decreases s.len(),
{
    if s.len() == 0 {
        Map::empty()
    } else {
        assoc_map(s.drop_last()).insert(s.last().0@, s.last().1)
    }
}

/// Whether the keys of the pair sequence are pairwise distinct.
pub open spec fn keys_distinct<V>(s: Seq<(String, V)>) -> bool {
    forall|i: int, j: int| 0 <= i < j < s.len() ==> s[i].0@ != s[j].0@
}

proof fn lemma_assoc_dom<V>(s: Seq<(String, V)>, k: Seq<char>)
    ensures
        assoc_map(s).dom().contains(k) <==> exists|i: int| 0 <= i < s.len() && s[i].0@ == k,
    decreases s.len(),
{
    if s.len() == 0 {
    } else {
        lemma_assoc_dom(s.drop_last(), k);
        if s.last().0@ == k {
            assert(s[s.len() - 1].0@ == k);
        } else {
            if assoc_map(s).dom().contains(k) {
                let i = choose|i: int| 0 <= i < s.drop_last().len() && s.drop_last()[i].0@ == k;
                assert(s[i].0@ == k);
            }
            if exists|i: int| 0 <= i < s.len() && s[i].0@ == k {
                let i = choose|i: int| 0 <= i < s.len() && s[i].0@ == k;
                assert(i < s.len() - 1);
                assert(s.drop_last()[i].0@ == k);
            }
        }
    }
}

proof fn lemma_assoc_get<V>(s: Seq<(String, V)>, i: int)
    requires
        keys_distinct(s),
        0 <= i < s.len(),
    ensures
        assoc_map(s).dom().contains(s[i].0@),
        assoc_map(s)[s[i].0@] == s[i].1,
    decreases s.len(),
{
    if i == s.len() - 1 {
    } else {
        assert(s.drop_last()[i] == s[i]);
        assert(keys_distinct(s.drop_last()));
        lemma_assoc_get(s.drop_last(), i);
        assert(s.last().0@ != s[i].0@);
    }
}

proof fn lemma_assoc_remove<V>(s: Seq<(String, V)>, i: int)
    requires
        keys_distinct(s),
        0 <= i < s.len(),
    ensures
        assoc_map(s.remove(i)) == assoc_map(s).remove(s[i].0@),
    decreases s.len(),
{
    let k = s[i].0@;
    if i == s.len() - 1 {
        assert(s.remove(i) =~= s.drop_last());
        lemma_assoc_dom(s.drop_last(), k);
        assert(forall|j: int| 0 <= j < s.len() - 1 ==> s.drop_last()[j].0@ != k);
        assert(assoc_map(s).remove(k) =~= assoc_map(s.drop_last()));
    } else {
        assert(s.remove(i).drop_last() =~= s.drop_last().remove(i));
        assert(s.remove(i).last() == s.last());
        assert(keys_distinct(s.drop_last()));
        lemma_assoc_remove(s.drop_last(), i);
        assert(s.drop_last()[i] == s[i]);
        assert(s.last().0@ != k);
        assert(assoc_map(s.remove(i)) =~= assoc_map(s).remove(k));
    }
}

/// A list of key-value pairs with pairwise distinct keys.
pub struct AssocList<V> {
    pairs: Vec<(String, V)>,
}

impl<V> View for AssocList<V> {
    type V = Map<Seq<char>, V>;

    closed spec fn view(&self) -> Map<Seq<char>, V> {
        assoc_map(self.pairs@)
    }
}

impl<V> AssocList<V> {
    /// The keys are pairwise distinct.
    pub closed spec fn wf(&self) -> bool {
        keys_distinct(self.pairs@)
    }

    /// An empty list.
    pub fn new() -> (r: Self)
        ensures
            r.wf(),
            r@ == Map::<Seq<char>, V>::empty(),
    {
        AssocList { pairs: Vec::new() }
    }

    fn index_of(&self, key: &str) -> (r: Option<usize>)
        ensures
            match r {
                Some(i) => i < self.pairs@.len() && self.pairs@[i as int].0@ == key@,
                None => forall|i: int| 0 <= i < self.pairs@.len() ==> self.pairs@[i].0@ != key@,
            },
    {
        let n = self.pairs.len();
        let mut i: usize = 0;
        while i < n
            invariant
                i <= n,
                n == self.pairs@.len(),
                forall|k: int| 0 <= k < i ==> self.pairs@[k].0@ != key@,
            decreases n - i,
        {
            if str_eq(self.pairs[i].0.as_str(), key) {
                return Some(i);
            }
            i += 1;
        }
        None
    }

    /// Whether a value is stored under the key.
    pub fn contains_key(&self, key: &str) -> (r: bool)
        requires
            self.wf(),
        ensures
            r == self@.dom().contains(key@),
    {
        proof {
            lemma_assoc_dom(self.pairs@, key@);
        }
        match self.index_of(key) {
            Some(_) => true,
            None => false,
        }
    }

    /// The value stored under the key, when one is.
    pub fn get(&self, key: &str) -> (r: Option<&V>)
        requires
            self.wf(),
        ensures
            match r {
                Some(v) => self@.dom().contains(key@) && *v == self@[key@],
                None => !self@.dom().contains(key@),
            },
    {
        proof {
            lemma_assoc_dom(self.pairs@, key@);
        }
        match self.index_of(key) {
            Some(i) => {
                proof {
                    lemma_assoc_get(self.pairs@, i as int);
                }
                Some(&self.pairs[i].1)
            },
            None => None,
        }
    }

    /// Removes the entry under the key and hands its value back, when one
    /// was stored.
    pub fn remove(&mut self, key: &str) -> (r: Option<V>)
        requires
            old(self).wf(),
        ensures
            final(self).wf(),
            final(self)@ == old(self)@.remove(key@),
            r is Some <==> old(self)@.dom().contains(key@),
            r matches Some(v) ==> old(self)@.dom().contains(key@) && v == old(self)@[key@],
    {
        proof {
            lemma_assoc_dom(self.pairs@, key@);
        }
        match self.index_of(key) {
            Some(i) => {
                proof {
                    lemma_assoc_get(self.pairs@, i as int);
                    lemma_assoc_remove(self.pairs@, i as int);
                    let s = self.pairs@;
                    assert forall|a: int, b: int|
                        0 <= a < b < s.remove(i as int).len() implies s.remove(i as int)[a].0@
                        != s.remove(i as int)[b].0@ by {
                        if a < i {
                            assert(s.remove(i as int)[a] == s[a]);
                        } else {
                            assert(s.remove(i as int)[a] == s[a + 1]);
                        }
                        if b < i {
                            assert(s.remove(i as int)[b] == s[b]);
                        } else {
                            assert(s.remove(i as int)[b] == s[b + 1]);
                        }
                    }
                }
                let (_, v) = self.pairs.remove(i);
                Some(v)
            },
            None => {
                proof {
                    assert(self@ =~= old(self)@.remove(key@));
                }
                None
            },
        }
    }

    /// Stores the value under the key, replacing any earlier entry.
    pub fn insert(&mut self, key: String, value: V)
        requires
            old(self).wf(),
        ensures
            final(self).wf(),
            final(self)@ == old(self)@.insert(key@, value),
    {
        let ghost pre = self@;
        let _ = self.remove(key.as_str());
        proof {
            lemma_assoc_dom(self.pairs@, key@);
            assert(forall|i: int| 0 <= i < self.pairs@.len() ==> self.pairs@[i].0@ != key@);
        }
        let ghost mid = self.pairs@;
        self.pairs.push((key, value));
        proof {
            assert(self.pairs@.drop_last() =~= mid);
            assert(self@ =~= pre.insert(self.pairs@.last().0@, value));
        }
    }
}

} // verus!
