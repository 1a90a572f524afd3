//! A map from names to values that keeps insertion order and never holds a
//! name twice. Registry tables, variable scopes and error tables use it.

use vstd::prelude::*;

use crate::text::same_text;

verus! {

/// A name-keyed table. Each name occurs at most once; re-inserting a name
/// replaces its value in place, so iteration order is first-insertion order.
pub struct NamedMap<T> {
    entries: Vec<(String, T)>,
}

impl<T> NamedMap<T> {
    /// The stored (name, value) pairs, in insertion order.
    pub closed spec fn pairs(self) -> Seq<(String, T)> {
        self.entries@
    }

    /// The name at position `i`, as characters.
    pub open spec fn key_at(self, i: int) -> Seq<char> {
        self.pairs()[i].0@
    }

    /// No name occurs twice.
    pub open spec fn wf(self) -> bool {
        forall|i: int, j: int|
            0 <= i < j < self.pairs().len() ==> #[trigger] self.key_at(i) != #[trigger] self.key_at(j)
    }

    /// Whether some entry has the name `k`.
    pub open spec fn has_key(self, k: Seq<char>) -> bool {
        exists|i: int| 0 <= i < self.pairs().len() && self.key_at(i) == k
    }

    /// The position of the name `k` (meaningful when `has_key(k)`).
    pub open spec fn index_of(self, k: Seq<char>) -> int {
        choose|i: int| 0 <= i < self.pairs().len() && self.key_at(i) == k
    }

    /// The table as a mathematical map from names to values.
    pub open spec fn view(self) -> Map<Seq<char>, T> {
        Map::new(|k: Seq<char>| self.has_key(k), |k: Seq<char>| self.pairs()[self.index_of(k)].1)
    }

    /// The names in insertion order, as characters.
    pub open spec fn key_seq(self) -> Seq<Seq<char>> {
        Seq::new(self.pairs().len(), |i: int| self.key_at(i))
    }

    /// In a well-formed table the entry at `i` is the one the view returns
    /// for its name.
    pub proof fn lemma_index_of(self, i: int)
        requires
            self.wf(),
            0 <= i < self.pairs().len(),
        ensures
            self.has_key(self.key_at(i)),
            self.index_of(self.key_at(i)) == i,
            self.view()[self.key_at(i)] == self.pairs()[i].1,
    {
        let k = self.key_at(i);
        assert(self.has_key(k));
        let j = self.index_of(k);
        if j != i {
            if j < i {
                assert(self.key_at(j) != self.key_at(i));
            } else {
                assert(self.key_at(i) != self.key_at(j));
            }
        }
    }

    /// A well-formed table has one name in its view per entry.
    pub proof fn lemma_len(self)
        requires
            self.wf(),
        ensures
            self.view().len() == self.pairs().len(),
    {
        let ks = self.key_seq();
        assert(ks.no_duplicates()) by {
            assert forall|a: int, b: int| 0 <= a < ks.len() && 0 <= b < ks.len() && a != b implies ks[a] != ks[b] by {
                if a < b {
                    assert(self.key_at(a) != self.key_at(b));
                } else {
                    assert(self.key_at(b) != self.key_at(a));
                }
            }
        }
        ks.unique_seq_to_set();
        assert forall|k: Seq<char>| #[trigger] self.view().dom().contains(k) == ks.to_set().contains(k) by {
            if self.has_key(k) {
                let i = choose|i: int| 0 <= i < self.pairs().len() && self.key_at(i) == k;
                assert(ks[i] == k);
            }
            if ks.contains(k) {
                let i = choose|i: int| 0 <= i < ks.len() && ks[i] == k;
                assert(self.key_at(i) == k);
            }
        }
        assert(self.view().dom() =~= ks.to_set());
    }

    /// An empty table.
    pub fn new() -> (r: NamedMap<T>)
        ensures
            r.wf(),
            r.pairs().len() == 0,
            r.view() == Map::<Seq<char>, T>::empty(),
    {
        let r = NamedMap { entries: Vec::new() };
        assert(r.view() =~= Map::<Seq<char>, T>::empty());
        r
    }

    /// Number of names in the table.
    pub fn len(&self) -> (r: usize)
        ensures
            r == self.pairs().len(),
    {
        self.entries.len()
    }

    /// Whether the table is empty.
    pub fn is_empty(&self) -> (r: bool)
        requires
            self.wf(),
        ensures
            r == (self.view() == Map::<Seq<char>, T>::empty()),
            r == (self.pairs().len() == 0),
    {
        if self.entries.len() == 0 {
            assert(self.view() =~= Map::<Seq<char>, T>::empty());
            true
        } else {
            proof {
                self.lemma_index_of(0);
                assert(self.view().contains_key(self.key_at(0)));
            }
            false
        }
    }

    /// Position of the name `k`, if present.
    pub fn position(&self, k: &str) -> (r: Option<usize>)
        requires
            self.wf(),
        ensures
            match r {
                Some(i) => i < self.pairs().len() && self.key_at(i as int) == k@,
                None => !self.has_key(k@),
            },
            r is Some <==> self.view().contains_key(k@),
    {
        let mut i: usize = 0;
        while i < self.entries.len()
            invariant
                i <= self.entries@.len(),
                forall|j: int| 0 <= j < i ==> self.key_at(j) != k@,
            decreases self.entries@.len() - i,
        {
            if same_text(&self.entries[i].0, k) {
                assert(self.key_at(i as int) == k@);
                assert(self.has_key(k@));
                return Some(i);
            }
            i += 1;
        }
        None
    }

    /// The value stored under `k`, if any.
    pub fn get(&self, k: &str) -> (r: Option<&T>)
        requires
            self.wf(),
        ensures
            match r {
                Some(v) => self.view().contains_key(k@) && *v == self.view()[k@],
                None => !self.view().contains_key(k@),
            },
    {
        match self.position(k) {
            Some(i) => {
                proof { self.lemma_index_of(i as int); }
                Some(&self.entries[i].1)
            },
            None => None,
        }
    }

    /// The value stored at position `i`.
    pub fn value_at(&self, i: usize) -> (r: &T)
        requires
            i < self.pairs().len(),
        ensures
            *r == self.pairs()[i as int].1,
    {
        &self.entries[i].1
    }

    /// The name stored at position `i`.
    pub fn name_at(&self, i: usize) -> (r: &String)
        requires
            i < self.pairs().len(),
        ensures
            r@ == self.key_at(i as int),
    {
        &self.entries[i].0
    }

    /// Removes the name `k` and its value; nothing changes when `k` is
    /// absent.
    pub fn remove(&mut self, k: &str)
        requires
            old(self).wf(),
        ensures
            final(self).wf(),
            final(self).view() == old(self).view().remove(k@),
    {
        let ghost pre = *self;
        match self.position(k) {
            Some(i) => {
                self.entries.remove(i);
                proof {
                    let ii = i as int;
                    assert forall|a: int| 0 <= a < self.pairs().len() implies #[trigger] self.key_at(a) == pre.key_at(
                        if a < ii {
                            a
                        } else {
                            a + 1
                        },
                    ) by {}
                    assert forall|a: int, b: int|
                        0 <= a < b < self.pairs().len() implies #[trigger] self.key_at(a) != #[trigger] self.key_at(b) by {
                        let a2 = if a < ii {
                            a
                        } else {
                            a + 1
                        };
                        let b2 = if b < ii {
                            b
                        } else {
                            b + 1
                        };
                        assert(pre.key_at(a2) != pre.key_at(b2));
                    }
                    assert forall|kq: Seq<char>| #[trigger] self.view().contains_key(kq) == pre.view().remove(k@).contains_key(kq) by {
                        if self.has_key(kq) {
                            let j = choose|j: int| 0 <= j < self.pairs().len() && self.key_at(j) == kq;
                            let j2 = if j < ii {
                                j
                            } else {
                                j + 1
                            };
                            assert(pre.key_at(j2) == kq);
                            if kq == k@ {
                                assert(pre.key_at(ii) == k@);
                                if j2 < ii {
                                    assert(pre.key_at(j2) != pre.key_at(ii));
                                } else {
                                    assert(pre.key_at(ii) != pre.key_at(j2));
                                }
                            }
                        }
                        if pre.has_key(kq) && kq != k@ {
                            let j2 = choose|j: int| 0 <= j < pre.pairs().len() && pre.key_at(j) == kq;
                            assert(j2 != ii);
                            let j = if j2 < ii {
                                j2
                            } else {
                                j2 - 1
                            };
                            assert(self.key_at(j) == kq);
                        }
                    }
                    assert forall|kq: Seq<char>| #[trigger] self.view().contains_key(kq) implies self.view()[kq]
                        == pre.view()[kq] by {
                        let j = self.index_of(kq);
                        self.lemma_index_of(j);
                        let j2 = if j < ii {
                            j
                        } else {
                            j + 1
                        };
                        pre.lemma_index_of(j2);
                        assert(self.pairs()[j] == pre.pairs()[j2]);
                    }
                    assert(self.view() =~= pre.view().remove(k@));
                }
            },
            None => {
                assert(self.view() =~= pre.view().remove(k@));
            },
        }
    }

    /// Stores `v` under `k`, replacing any previous value for the same name.
    pub fn insert(&mut self, k: String, v: T)
        requires
            old(self).wf(),
        ensures
            final(self).wf(),
            final(self).view() == old(self).view().insert(k@, v),
            old(self).has_key(k@) ==> final(self).key_seq() == old(self).key_seq(),
            !old(self).has_key(k@) ==> final(self).key_seq() == old(self).key_seq().push(k@),
    {
        let ghost pre = *self;
        match self.position(k.as_str()) {
            Some(i) => {
                let ghost kk = k@;
                self.entries.set(i, (k, v));
                proof {
                    assert forall|a: int, b: int|
                        0 <= a < b < self.pairs().len() implies #[trigger] self.key_at(a) != #[trigger] self.key_at(b) by {
                        assert(pre.key_at(a) != pre.key_at(b));
                    }
                    assert forall|kq: Seq<char>| #[trigger] self.view().contains_key(kq) == pre.view().insert(kk, v).contains_key(kq) by {
                        if kq == kk {
                            assert(self.key_at(i as int) == kk);
                        } else if pre.has_key(kq) {
                            let j = pre.index_of(kq);
                            assert(self.key_at(j) == kq);
                        } else if self.has_key(kq) {
                            let j = self.index_of(kq);
                            assert(pre.key_at(j) == kq);
                        }
                    }
                    assert forall|kq: Seq<char>| self.view().contains_key(kq) implies self.view()[kq] == pre.view().insert(kk, v)[kq] by {
                        let j = self.index_of(kq);
                        self.lemma_index_of(j);
                        if kq != kk {
                            assert(self.key_at(i as int) == kk);
                            assert(j != i);
                            assert(pre.key_at(j) == kq);
                            pre.lemma_index_of(j);
                        } else {
                            self.lemma_index_of(i as int);
                        }
                    }
                    assert(self.view() =~= pre.view().insert(kk, v));
                    assert(self.key_seq() =~= pre.key_seq());
                }
            },
            None => {
                let ghost kk = k@;
                self.entries.push((k, v));
                proof {
                    let n = pre.pairs().len() as int;
                    assert forall|a: int, b: int|
                        0 <= a < b < self.pairs().len() implies #[trigger] self.key_at(a) != #[trigger] self.key_at(b) by {
                        if b < n {
                            assert(pre.key_at(a) != pre.key_at(b));
                        } else {
                            assert(pre.key_at(a) == self.key_at(a));
                        }
                    }
                    assert forall|kq: Seq<char>| #[trigger] self.view().contains_key(kq) == pre.view().insert(kk, v).contains_key(kq) by {
                        if kq == kk {
                            assert(self.key_at(n) == kk);
                        } else if pre.has_key(kq) {
                            let j = pre.index_of(kq);
                            assert(self.key_at(j) == kq);
                        } else if self.has_key(kq) {
                            let j = self.index_of(kq);
                            if j < n {
                                assert(pre.key_at(j) == kq);
                            }
                        }
                    }
                    assert forall|kq: Seq<char>| self.view().contains_key(kq) implies self.view()[kq] == pre.view().insert(kk, v)[kq] by {
                        let j = self.index_of(kq);
                        self.lemma_index_of(j);
                        if kq != kk {
                            assert(j < n);
                            pre.lemma_index_of(j);
                        }
                    }
                    assert(self.view() =~= pre.view().insert(kk, v));
                    assert(self.key_seq() =~= pre.key_seq().push(kk));
                }
            },
        }
    }

    /// The names in insertion order.
    pub fn names(&self) -> (r: Vec<String>)
        requires
            self.wf(),
        ensures
            r@.len() == self.pairs().len(),
            forall|i: int| 0 <= i < r@.len() ==> #[trigger] r@[i]@ == self.key_at(i),
            forall|k: Seq<char>| self.view().contains_key(k) <==> exists|i: int| 0 <= i < r@.len() && #[trigger] r@[i]@ == k,
            forall|i: int, j: int| 0 <= i < j < r@.len() ==> #[trigger] r@[i]@ != #[trigger] r@[j]@,
    {
        let mut out: Vec<String> = Vec::new();
        let mut i: usize = 0;
        while i < self.entries.len()
            invariant
                i <= self.entries@.len(),
                out@.len() == i,
                forall|j: int| 0 <= j < i ==> #[trigger] out@[j]@ == self.key_at(j),
            decreases self.entries@.len() - i,
        {
            out.push(self.entries[i].0.clone());
            i += 1;
        }
        proof {
            assert forall|k: Seq<char>| self.view().contains_key(k) implies exists|i: int| 0 <= i < out@.len() && #[trigger] out@[i]@ == k by {
                let j = self.index_of(k);
                assert(out@[j]@ == k);
            }
            assert forall|i: int, j: int| 0 <= i < j < out@.len() implies #[trigger] out@[i]@ != #[trigger] out@[j]@ by {
                assert(self.key_at(i) != self.key_at(j));
            }
        }
        out
    }
}

} // verus!
