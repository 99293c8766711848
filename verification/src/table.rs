use vstd::prelude::*;

verus! {

/// A row that names its own key.
pub trait Keyed: Sized {
    /// The key, as contracts see it.
    spec fn key(self) -> u64;

    /// The key, as executable code reads it.
    fn ekey(&self) -> (k: u64)
        ensures
            k == self.key(),
    ;
}

impl Keyed for u64 {
    open spec fn key(self) -> u64 {
        self
    }

    fn ekey(&self) -> (k: u64)
        ensures
            k == self.key(),
    {
        *self
    }
}

/// A small association table: rows with pairwise distinct keys, observed in
/// contracts as a map from key to row.  All the key-directory state of the
/// mediator (peer records, handshake sessions, relay sessions, pending relay
/// requests) lives in tables of this shape.
#[verifier::reject_recursive_types(T)]
pub struct IdTable<T> {
    rows: Vec<T>,
}

impl<T: Keyed + Copy> IdTable<T> {
    /// No two rows carry the same key.
    pub closed spec fn wf(self) -> bool {
        forall|i: int, j: int|
            0 <= i < j < self.rows@.len() ==> self.rows@[i].key() != self.rows@[j].key()
    }

    /// The table as contracts see it: key to row.
    pub closed spec fn view(self) -> Map<u64, T> {
        Map::new(
            |k: u64| exists|i: int| 0 <= i < self.rows@.len() && self.rows@[i].key() == k,
            |k: u64|
                self.rows@[choose|i: int| 0 <= i < self.rows@.len() && self.rows@[i].key() == k],
        )
    }

    /// The row at index `i` is what the view returns for its key.
    proof fn lemma_view_at(self, i: int)
        requires
            self.wf(),
            0 <= i < self.rows@.len(),
        ensures
            self@.contains_key(self.rows@[i].key()),
            self@[self.rows@[i].key()] == self.rows@[i],
    {
        let k0 = self.rows@[i].key();
        assert(0 <= i < self.rows@.len() && self.rows@[i].key() == k0);
        let k = choose|k: int| 0 <= k < self.rows@.len() && self.rows@[k].key() == k0;
        if k < i {
            assert(self.rows@[k].key() != self.rows@[i].key());
        } else if i < k {
            assert(self.rows@[i].key() != self.rows@[k].key());
        }
    }

    /// Every binding the view holds maps a key to a row that names that key.
    pub proof fn lemma_keys(self)
        requires
            self.wf(),
        ensures
            forall|k: u64| #[trigger]
                self@.contains_key(k) ==> self@[k].key() == k,
    {
        assert forall|k: u64| #[trigger] self@.contains_key(k) implies self@[k].key() == k by {
            let i = choose|i: int| 0 <= i < self.rows@.len() && self.rows@[i].key() == k;
            self.lemma_view_at(i);
        }
    }

    /// Where the row keyed `key` sits, if anywhere.
    fn index_of(&self, key: u64) -> (r: Option<usize>)
        requires
            self.wf(),
        ensures
            r matches Some(i) ==> i < self.rows@.len() && self.rows@[i as int].key() == key,
            r is None ==> forall|k: int| 0 <= k < self.rows@.len() ==> self.rows@[k].key() != key,
    {
        let mut i: usize = 0;
        while i < self.rows.len()
            invariant
                0 <= i <= self.rows@.len(),
                forall|k: int| 0 <= k < i ==> self.rows@[k].key() != key,
            decreases self.rows@.len() - i,
        {
            if self.rows[i].ekey() == key {
                return Some(i);
            }
            i = i + 1;
        }
        None
    }

    pub fn new() -> (t: IdTable<T>)
        ensures
            t.wf(),
            t@ == Map::<u64, T>::empty(),
    {
        let t = IdTable { rows: Vec::new() };
        proof {
            assert(t@ =~= Map::<u64, T>::empty());
        }
        t
    }

    /// Fetch the row keyed `key`; `None` exactly when the table has none.
    pub fn get(&self, key: u64) -> (r: Option<T>)
        requires
            self.wf(),
        ensures
            r is Some <==> self@.contains_key(key),
            r matches Some(row) ==> row == self@[key],
    {
        match self.index_of(key) {
            Some(i) => {
                proof {
                    self.lemma_view_at(i as int);
                }
                Some(self.rows[i])
            },
            None => {
                proof {
                    if self@.contains_key(key) {
                        let k = choose|k: int|
                            0 <= k < self.rows@.len() && self.rows@[k].key() == key;
                        assert(self.rows@[k].key() != key);
                    }
                }
                None
            },
        }
    }

    /// Whether the table has a row keyed `key`.
    pub fn has(&self, key: u64) -> (b: bool)
        requires
            self.wf(),
        ensures
            b == self@.contains_key(key),
    {
        let r = self.get(key);
        r.is_some()
    }

    /// Insert `row`, replacing any row that carries the same key.
    pub fn put(&mut self, row: T)
        requires
            old(self).wf(),
        ensures
            final(self).wf(),
            final(self)@ == old(self)@.insert(row.key(), row),
    {
        let key = row.ekey();
        match self.index_of(key) {
            Some(i) => {
                self.rows[i] = row;
                proof {
                    self.lemma_put_view(*old(self), i as int, row);
                }
            },
            None => {
                self.rows.push(row);
                proof {
                    self.lemma_put_view(*old(self), old(self).rows@.len() as int, row);
                }
            },
        }
    }

    /// After writing `row` at index `i` of `pre` (replacing a row with the
    /// same key, or appending a fresh one), the view gains exactly that one
    /// binding.
    proof fn lemma_put_view(self, pre: IdTable<T>, i: int, row: T)
        requires
            pre.wf(),
            0 <= i <= pre.rows@.len(),
            i < pre.rows@.len() ==> self.rows@ == pre.rows@.update(i, row),
            i < pre.rows@.len() ==> pre.rows@[i].key() == row.key(),
            i == pre.rows@.len() ==> self.rows@ == pre.rows@.push(row),
            i == pre.rows@.len() ==> forall|k: int|
                0 <= k < pre.rows@.len() ==> pre.rows@[k].key() != row.key(),
        ensures
            self.wf(),
            self@ == pre@.insert(row.key(), row),
    {
        assert forall|p: int, q: int|
            0 <= p < q < self.rows@.len() implies self.rows@[p].key() != self.rows@[q].key() by {
            if i < pre.rows@.len() {
                assert(self.rows@[p].key() == pre.rows@[p].key());
                assert(self.rows@[q].key() == pre.rows@[q].key());
                assert(pre.rows@[p].key() != pre.rows@[q].key());
            } else {
                if q == pre.rows@.len() {
                    assert(self.rows@[q] == row);
                    assert(pre.rows@[p].key() != row.key());
                } else {
                    assert(pre.rows@[p].key() != pre.rows@[q].key());
                }
            }
        }
        assert(self.rows@[i] == row);
        assert forall|k: u64|
            #![trigger self@.contains_key(k)]
            #![trigger pre@.contains_key(k)]
            (self@.contains_key(k) == pre@.insert(row.key(), row).contains_key(k)) && (
            self@.contains_key(k) ==> self@[k] == pre@.insert(row.key(), row)[k]) by {
            if k == row.key() {
                self.lemma_view_at(i);
            } else {
                if pre@.contains_key(k) {
                    let j = choose|j: int| 0 <= j < pre.rows@.len() && pre.rows@[j].key() == k;
                    pre.lemma_view_at(j);
                    assert(self.rows@[j].key() == k);
                    self.lemma_view_at(j);
                }
                if self@.contains_key(k) {
                    let j = choose|j: int| 0 <= j < self.rows@.len() && self.rows@[j].key() == k;
                    assert(j != i);
                    assert(pre.rows@[j].key() == k);
                    pre.lemma_view_at(j);
                    self.lemma_view_at(j);
                }
            }
        }
        assert(self@ =~= pre@.insert(row.key(), row));
    }

    /// Delete the row keyed `key`, if any.
    pub fn del(&mut self, key: u64)
        requires
            old(self).wf(),
        ensures
            final(self).wf(),
            final(self)@ == old(self)@.remove(key),
    {
        match self.index_of(key) {
            Some(i) => {
                self.rows.remove(i);
                proof {
                    self.lemma_del_view(*old(self), i as int, key);
                }
            },
            None => {
                proof {
                    if old(self)@.contains_key(key) {
                        let k = choose|k: int|
                            0 <= k < old(self).rows@.len() && old(self).rows@[k].key() == key;
                        assert(old(self).rows@[k].key() != key);
                    }
                    assert(self@ =~= old(self)@.remove(key));
                }
            },
        }
    }

    /// After deleting index `i` of `pre` (the one row keyed `key`), the view
    /// loses exactly that binding.
    proof fn lemma_del_view(self, pre: IdTable<T>, i: int, key: u64)
        requires
            pre.wf(),
            0 <= i < pre.rows@.len(),
            pre.rows@[i].key() == key,
            self.rows@ == pre.rows@.remove(i),
        ensures
            self.wf(),
            self@ == pre@.remove(key),
    {
        assert forall|p: int, q: int|
            0 <= p < q < self.rows@.len() implies self.rows@[p].key() != self.rows@[q].key() by {
            let p0 = if p < i {
                p
            } else {
                p + 1
            };
            let q0 = if q < i {
                q
            } else {
                q + 1
            };
            assert(self.rows@[p] == pre.rows@[p0]);
            assert(self.rows@[q] == pre.rows@[q0]);
            assert(pre.rows@[p0].key() != pre.rows@[q0].key());
        }
        assert forall|x: u64|
            #![trigger self@.contains_key(x)]
            #![trigger pre@.contains_key(x)]
            (self@.contains_key(x) == pre@.remove(key).contains_key(x)) && (self@.contains_key(x)
                ==> self@[x] == pre@.remove(key)[x]) by {
            if x != key {
                if pre@.contains_key(x) {
                    let k = choose|k: int| 0 <= k < pre.rows@.len() && pre.rows@[k].key() == x;
                    assert(k != i);
                    let k1 = if k < i {
                        k
                    } else {
                        k - 1
                    };
                    assert(self.rows@[k1] == pre.rows@[k]);
                    pre.lemma_view_at(k);
                    self.lemma_view_at(k1);
                }
                if self@.contains_key(x) {
                    let k = choose|k: int| 0 <= k < self.rows@.len() && self.rows@[k].key() == x;
                    let k0 = if k < i {
                        k
                    } else {
                        k + 1
                    };
                    assert(self.rows@[k] == pre.rows@[k0]);
                    pre.lemma_view_at(k0);
                    self.lemma_view_at(k);
                }
            } else {
                if self@.contains_key(x) {
                    let k = choose|k: int| 0 <= k < self.rows@.len() && self.rows@[k].key() == x;
                    let k0 = if k < i {
                        k
                    } else {
                        k + 1
                    };
                    assert(self.rows@[k] == pre.rows@[k0]);
                    assert(k0 != i);
                    if k0 < i {
                        assert(pre.rows@[k0].key() != pre.rows@[i].key());
                    } else {
                        assert(pre.rows@[i].key() != pre.rows@[k0].key());
                    }
                    assert(false);
                }
            }
        }
        assert(self@ =~= pre@.remove(key));
    }

    /// Every key the table holds, each exactly once, in row order.
    pub fn keys(&self) -> (v: Vec<u64>)
        requires
            self.wf(),
        ensures
            forall|p: int, q: int| 0 <= p < q < v@.len() ==> v@[p] != v@[q],
            forall|k: u64| #[trigger] v@.contains(k) <==> self@.contains_key(k),
    {
        let mut v: Vec<u64> = Vec::new();
        let mut i: usize = 0;
        while i < self.rows.len()
            invariant
                self.wf(),
                0 <= i <= self.rows@.len(),
                v@.len() == i,
                forall|p: int| 0 <= p < i ==> v@[p] == self.rows@[p].key(),
            decreases self.rows@.len() - i,
        {
            let k = self.rows[i].ekey();
            v.push(k);
            i = i + 1;
        }
        proof {
            assert forall|p: int, q: int| 0 <= p < q < v@.len() implies v@[p] != v@[q] by {
                assert(self.rows@[p].key() != self.rows@[q].key());
            }
            assert forall|k: u64| #[trigger] v@.contains(k) <==> self@.contains_key(k) by {
                if v@.contains(k) {
                    let p = choose|p: int| 0 <= p < v@.len() && v@[p] == k;
                    self.lemma_view_at(p);
                }
                if self@.contains_key(k) {
                    let j = choose|j: int| 0 <= j < self.rows@.len() && self.rows@[j].key() == k;
                    assert(v@[j] == k);
                }
            }
        }
        v
    }
}

} // verus!
