//! A keyed table: rows with pairwise distinct keys, upserted by key and read
//! back newest-first. Each persistence store is an instance of it.

use vstd::prelude::*;

verus! {

use vstd::multiset::Multiset;

broadcast use vstd::seq_lib::group_to_multiset_ensures;

/// A row that a table can hold: it names its own key and carries the stamp
/// the reads are ordered by.
pub trait TableRow: Sized {
    /// The key the row is stored under.
    spec fn key(&self) -> Self::Key;

    /// The stamp that orders reads, newest first.
    spec fn stamp(&self) -> int;

    type Key;

    /// Whether this row is stored under the same key as `other`.
    fn key_matches(&self, other: &Self) -> (r: bool)
        ensures
            r == (self.key() == other.key()),
    ;

    /// Whether this row's stamp is at least the other's.
    fn stamp_ge(&self, other: &Self) -> (r: bool)
        ensures
            r == (self.stamp() >= other.stamp()),
    ;

    /// An equal copy of the row.
    fn duplicate(&self) -> (r: Self)
        ensures
            r == *self,
    ;
}

/// The map described by a sequence of rows, later rows winning.
pub open spec fn row_map<R: TableRow>(s: Seq<R>) -> Map<R::Key, R>
    decreases s.len(),
{
    if s.len() == 0 {
        Map::empty()
    } else {
        row_map(s.drop_last()).insert(s.last().key(), s.last())
    }
}

/// Whether the rows' keys are pairwise distinct.
pub open spec fn row_keys_distinct<R: TableRow>(s: Seq<R>) -> bool {
    forall|i: int, j: int| 0 <= i < j < s.len() ==> s[i].key() != s[j].key()
}

/// Whether the rows are ordered newest-first by their stamps.
pub open spec fn sorted_desc<R: TableRow>(s: Seq<R>) -> bool {
    forall|i: int, j: int| 0 <= i < j < s.len() ==> s[i].stamp() >= s[j].stamp()
}

proof fn lemma_row_dom<R: TableRow>(s: Seq<R>, k: R::Key)
    ensures
        row_map(s).dom().contains(k) <==> exists|i: int| 0 <= i < s.len() && s[i].key() == k,
    decreases s.len(),
{
    if s.len() == 0 {
    } else {
        lemma_row_dom(s.drop_last(), k);
        if s.last().key() == k {
            assert(s[s.len() - 1].key() == k);
        } else {
            if row_map(s).dom().contains(k) {
                let i = choose|i: int| 0 <= i < s.drop_last().len() && s.drop_last()[i].key() == k;
                assert(s[i].key() == k);
            }
            if exists|i: int| 0 <= i < s.len() && s[i].key() == k {
                let i = choose|i: int| 0 <= i < s.len() && s[i].key() == k;
                assert(i < s.len() - 1);
                assert(s.drop_last()[i].key() == k);
            }
        }
    }
}

proof fn lemma_row_get<R: TableRow>(s: Seq<R>, i: int)
    requires
        row_keys_distinct(s),
        0 <= i < s.len(),
    ensures
        row_map(s).dom().contains(s[i].key()),
        row_map(s)[s[i].key()] == s[i],
    decreases s.len(),
{
    if i == s.len() - 1 {
    } else {
        assert(s.drop_last()[i] == s[i]);
        assert(row_keys_distinct(s.drop_last()));
        lemma_row_get(s.drop_last(), i);
        assert(s.last().key() != s[i].key());
    }
}

proof fn lemma_row_remove<R: TableRow>(s: Seq<R>, i: int)
    requires
        row_keys_distinct(s),
        0 <= i < s.len(),
    ensures
        row_map(s.remove(i)) == row_map(s).remove(s[i].key()),
    decreases s.len(),
{
    let k = s[i].key();
    if i == s.len() - 1 {
        assert(s.remove(i) =~= s.drop_last());
        lemma_row_dom(s.drop_last(), k);
        assert(forall|j: int| 0 <= j < s.len() - 1 ==> s.drop_last()[j].key() != k);
        assert(row_map(s).remove(k) =~= row_map(s.drop_last()));
    } else {
        assert(s.remove(i).drop_last() =~= s.drop_last().remove(i));
        assert(s.remove(i).last() == s.last());
        assert(row_keys_distinct(s.drop_last()));
        lemma_row_remove(s.drop_last(), i);
        assert(s.drop_last()[i] == s[i]);
        assert(s.last().key() != k);
        assert(row_map(s.remove(i)) =~= row_map(s).remove(k));
    }
}

proof fn lemma_row_dom_len<R: TableRow>(s: Seq<R>)
    requires
        row_keys_distinct(s),
    ensures
        row_map(s).dom().finite(),
        row_map(s).dom().len() == s.len(),
    decreases s.len(),
{
    if s.len() == 0 {
        assert(row_map(s).dom() =~= Set::<R::Key>::empty());
    } else {
        assert(row_keys_distinct(s.drop_last()));
        lemma_row_dom_len(s.drop_last());
        lemma_row_dom(s.drop_last(), s.last().key());
        assert(forall|j: int| 0 <= j < s.len() - 1 ==> s.drop_last()[j].key() != s.last().key());
        assert(!row_map(s.drop_last()).dom().contains(s.last().key()));
        assert(row_map(s).dom() =~= row_map(s.drop_last()).dom().insert(s.last().key()));
    }
}

proof fn lemma_row_contained<R: TableRow>(s: Seq<R>, r: R)
    requires
        row_keys_distinct(s),
    ensures
        s.contains(r) <==> (row_map(s).dom().contains(r.key()) && row_map(s)[r.key()] == r),
{
    if s.contains(r) {
        let i = choose|i: int| 0 <= i < s.len() && s[i] == r;
        lemma_row_get(s, i);
    }
    lemma_row_dom(s, r.key());
    if row_map(s).dom().contains(r.key()) && row_map(s)[r.key()] == r {
        let i = choose|i: int| 0 <= i < s.len() && s[i].key() == r.key();
        lemma_row_get(s, i);
        assert(s[i] == r);
    }
}

/// A table of rows with pairwise distinct keys, in the order the keys first
/// arrived.
pub struct Table<R: TableRow> {
    rows: Vec<R>,
}

impl<R: TableRow> View for Table<R> {
    type V = Map<R::Key, R>;

    closed spec fn view(&self) -> Map<R::Key, R> {
        row_map(self.rows@)
    }
}

impl<R: TableRow> Table<R> {
    /// The keys are pairwise distinct.
    pub closed spec fn wf(&self) -> bool {
        row_keys_distinct(self.rows@)
    }

    /// The rows held, as a multiset.
    pub closed spec fn row_mset(&self) -> Multiset<R> {
        self.rows@.to_multiset()
    }

    /// An empty table.
    pub fn new() -> (r: Self)
        ensures
            r.wf(),
            r@ == Map::<R::Key, R>::empty(),
    {
        Table { rows: Vec::new() }
    }

    fn index_of_key(&self, probe: &R) -> (r: Option<usize>)
        ensures
            match r {
                Some(i) => i < self.rows@.len() && self.rows@[i as int].key() == probe.key(),
                None => forall|i: int|
                    0 <= i < self.rows@.len() ==> self.rows@[i].key() != probe.key(),
            },
    {
        let n = self.rows.len();
        let mut i: usize = 0;
        while i < n
            invariant
                i <= n,
                n == self.rows@.len(),
                forall|k: int| 0 <= k < i ==> self.rows@[k].key() != probe.key(),
            decreases n - i,
        {
            if self.rows[i].key_matches(probe) {
                return Some(i);
            }
            i += 1;
        }
        None
    }

    /// How many rows the table holds.
    pub fn len(&self) -> (n: usize)
        requires
            self.wf(),
        ensures
            n == self@.dom().len(),
    {
        proof {
            lemma_row_dom_len(self.rows@);
        }
        self.rows.len()
    }

    /// Stores the row under its key, replacing any earlier row of that key.
    pub fn upsert(&mut self, row: R)
        requires
            old(self).wf(),
        ensures
            final(self).wf(),
            final(self)@ == old(self)@.insert(row.key(), row),
    {
        let ghost pre = self@;
        proof {
            lemma_row_dom(self.rows@, row.key());
        }
        match self.index_of_key(&row) {
            Some(i) => {
                proof {
                    lemma_row_get(self.rows@, i as int);
                    lemma_row_remove(self.rows@, i as int);
                    let s = self.rows@;
                    assert forall|a: int, b: int|
                        0 <= a < b < s.remove(i as int).len() implies s.remove(i as int)[a].key()
                        != s.remove(i as int)[b].key() by {
                        if a < i {
                            assert(s.remove(i as int)[a] == s[a]);
                        } else {
                            assert(s.remove(i as int)[a] == s[a + 1]);
                        }
                        if b < i {
                            assert(s.remove(i as int)[b] == s[b]);
                        } else {
                            assert(s.remove(i as int)[b] == s[b + 1]);
                        }
                    }
                }
                let _ = self.rows.remove(i);
            },
            None => {
                proof {
                    assert(self@ =~= pre.remove(row.key()));
                }
            },
        }
        proof {
            lemma_row_dom(self.rows@, row.key());
            assert(forall|i: int| 0 <= i < self.rows@.len() ==> self.rows@[i].key() != row.key());
        }
        let ghost mid = self.rows@;
        self.rows.push(row);
        proof {
            assert(self.rows@.drop_last() =~= mid);
            assert(self@ =~= pre.insert(self.rows@.last().key(), self.rows@.last()));
        }
    }

    /// The rows, copied out newest-first by stamp.
    pub fn snapshot_sorted(&self) -> (r: Vec<R>)
        ensures
            r@.to_multiset() == self.row_mset(),
            sorted_desc(r@),
    {
        let mut out: Vec<R> = Vec::new();
        let n = self.rows.len();
        let mut i: usize = 0;
        while i < n
            invariant
                i <= n,
                n == self.rows@.len(),
                sorted_desc(out@),
                out@.to_multiset() == self.rows@.subrange(0, i as int).to_multiset(),
            decreases n - i,
        {
            let x = self.rows[i].duplicate();
            insert_sorted_desc(&mut out, x);
            proof {
                assert(self.rows@.subrange(0, i + 1 as int) =~= self.rows@.subrange(
                    0,
                    i as int,
                ).push(self.rows@[i as int]));
            }
            i += 1;
        }
        proof {
            assert(self.rows@.subrange(0, n as int) =~= self.rows@);
        }
        out
    }

    /// Law: the keys are distinct, so no row occurs twice.
    pub proof fn lemma_counts(&self, r: R)
        requires
            self.wf(),
        ensures
            self.row_mset().count(r) <= 1,
    {
        assert forall|i: int, j: int|
            0 <= i < self.rows@.len() && 0 <= j < self.rows@.len() && i != j
            implies self.rows@[i] != self.rows@[j] by {
            if i < j {
                assert(self.rows@[i].key() != self.rows@[j].key());
            } else {
                assert(self.rows@[j].key() != self.rows@[i].key());
            }
        }
        assert(self.rows@.no_duplicates());
        self.rows@.lemma_multiset_has_no_duplicates();
        if !self.rows@.to_multiset().contains(r) {
            assert(self.rows@.to_multiset().count(r) == 0);
        }
    }

    /// Law: whatever the map holds under a key is a row whose own key is
    /// that key.
    pub proof fn lemma_keyed(&self, k: R::Key)
        requires
            self.wf(),
            self@.dom().contains(k),
        ensures
            self@[k].key() == k,
    {
        lemma_row_dom(self.rows@, k);
        let i = choose|i: int| 0 <= i < self.rows@.len() && self.rows@[i].key() == k;
        lemma_row_get(self.rows@, i);
    }

    /// Law: the table holds a row exactly when the row stands in the map
    /// under its own key. Read-back therefore returns a written row as it
    /// was written.
    pub proof fn lemma_content(&self, r: R)
        requires
            self.wf(),
        ensures
            self.row_mset().contains(r) <==> (self@.dom().contains(r.key()) && self@[r.key()]
                == r),
    {
        lemma_row_contained(self.rows@, r);
    }
}

fn insert_sorted_desc<R: TableRow>(out: &mut Vec<R>, x: R)
    requires
        sorted_desc(old(out)@),
    ensures
        sorted_desc(final(out)@),
        final(out)@.to_multiset() == old(out)@.to_multiset().insert(x),
{
    let ghost orig = out@;
    let n = out.len();
    let mut i: usize = 0;
    while i < n
        invariant
            i <= n,
            n == out@.len(),
            out@ == orig,
            sorted_desc(orig),
            forall|k: int| 0 <= k < i ==> orig[k].stamp() >= x.stamp(),
        ensures
            i <= n,
            out@ == orig,
            forall|k: int| 0 <= k < i ==> orig[k].stamp() >= x.stamp(),
            i < n ==> orig[i as int].stamp() < x.stamp(),
        decreases n - i,
    {
        if !out[i].stamp_ge(&x) {
            break ;
        }
        i += 1;
    }
    assert(i < orig.len() ==> orig[i as int].stamp() < x.stamp());
    out.insert(i, x);
    proof {
        let s = out@;
        assert(s == orig.insert(i as int, x));
        assert forall|a: int, b: int| 0 <= a < b < s.len() implies s[a].stamp() >= s[b].stamp() by {
            if b < i {
                assert(s[a] == orig[a] && s[b] == orig[b]);
            } else if b == i {
                assert(s[a] == orig[a] && s[b] == x);
            } else {
                assert(s[b] == orig[b - 1]);
                if a < i {
                    assert(s[a] == orig[a]);
                    assert(orig[i as int].stamp() < x.stamp());
                    assert(orig[a].stamp() >= orig[b - 1].stamp());
                } else if a == i {
                    assert(s[a] == x);
                    assert(orig[i as int].stamp() < x.stamp());
                    assert(orig[i as int].stamp() >= orig[b - 1].stamp());
                } else {
                    assert(s[a] == orig[a - 1]);
                }
            }
        }
    }
}

} // verus!
