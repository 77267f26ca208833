//! A small map keyed by client DUIDs: the lease tables of the DHCPv6 pool.
use vstd::prelude::*;

verus! {

/// A finite map from DUID bytes to `T`, held as a vector whose keys are
/// pairwise distinct.
pub struct DuidTable<T> {
    entries: Vec<(Vec<u8>, T)>,
}

/// What a lease table entry knows of its own expiry.
pub trait Lapsing {
    /// The entry is due for removal at time `now`.
    spec fn lapsed(&self, now: u64) -> bool;

    fn is_lapsed(&self, now: u64) -> (r: bool)
        ensures
            r == self.lapsed(now),
    ;
}

impl<T> DuidTable<T> {
    /// The entries, in the order in which the table holds them.
    pub closed spec fn entry_seq(self) -> Seq<(Vec<u8>, T)> {
        self.entries@
    }

    pub closed spec fn wf(self) -> bool {
        forall|i: int, j: int|
            0 <= i < j < self.entries@.len() ==> (#[trigger] self.entries@[i]).0@
                != (#[trigger] self.entries@[j]).0@
    }

    pub closed spec fn has_key(self, k: Seq<u8>) -> bool {
        exists|i: int| 0 <= i < self.entries@.len() && (#[trigger] self.entries@[i]).0@ == k
    }

    closed spec fn slot_of(self, k: Seq<u8>) -> int {
        choose|i: int| 0 <= i < self.entries@.len() && (#[trigger] self.entries@[i]).0@ == k
    }

    /// The table as a map from DUID to value.
    pub closed spec fn view(self) -> Map<Seq<u8>, T> {
        Map::new(|k: Seq<u8>| self.has_key(k), |k: Seq<u8>| self.entries@[self.slot_of(k)].1)
    }

    proof fn lemma_slot(self, i: int)
        requires
            self.wf(),
            0 <= i < self.entries@.len(),
        ensures
            self.has_key(self.entries@[i].0@),
            self.slot_of(self.entries@[i].0@) == i,
            self.view().contains_key(self.entries@[i].0@),
            self.view()[self.entries@[i].0@] == self.entries@[i].1,
    {
        let k = self.entries@[i].0@;
        assert(self.has_key(k));
        let j = self.slot_of(k);
        if j != i {
            if j < i {
                assert(self.entries@[j].0@ != self.entries@[i].0@);
            } else {
                assert(self.entries@[i].0@ != self.entries@[j].0@);
            }
        }
    }

    /// Each entry of the sequence stands in the map, and the map holds
    /// nothing else.
    pub proof fn lemma_entries(self)
        requires
            self.wf(),
        ensures
            forall|i: int|
                0 <= i < self.entry_seq().len() ==> self.view().contains_key(
                    (#[trigger] self.entry_seq()[i]).0@,
                ) && self.view()[self.entry_seq()[i].0@] == self.entry_seq()[i].1,
            forall|k: Seq<u8>|
                #[trigger] self.view().contains_key(k) ==> exists|i: int|
                    0 <= i < self.entry_seq().len() && (#[trigger] self.entry_seq()[i]).0@ == k,
            self.view().dom().finite(),
            self.view().len() == self.entry_seq().len(),
    {
        assert forall|i: int| 0 <= i < self.entry_seq().len() implies self.view().contains_key(
            (#[trigger] self.entry_seq()[i]).0@,
        ) && self.view()[self.entry_seq()[i].0@] == self.entry_seq()[i].1 by {
            self.lemma_slot(i);
        }
        assert forall|k: Seq<u8>| #[trigger] self.view().contains_key(k) implies exists|i: int|
            0 <= i < self.entry_seq().len() && (#[trigger] self.entry_seq()[i]).0@ == k by {
            let i = self.slot_of(k);
            assert(self.entry_seq()[i].0@ == k);
        }
        self.lemma_dom_len(self.entries@.len() as int);
    }

    spec fn prefix_keys(self, n: int) -> Set<Seq<u8>> {
        Set::new(|k: Seq<u8>| exists|i: int| 0 <= i < n && (#[trigger] self.entries@[i]).0@ == k)
    }

    proof fn lemma_dom_len(self, n: int)
        requires
            self.wf(),
            0 <= n <= self.entries@.len(),
        ensures
            self.prefix_keys(n).finite(),
            self.prefix_keys(n).len() == n,
            n == self.entries@.len() ==> self.prefix_keys(n) == self.view().dom(),
        decreases n,
    {
        if n == 0 {
            assert(self.prefix_keys(0) =~= Set::empty());
        } else {
            self.lemma_dom_len(n - 1);
            let k = self.entries@[n - 1].0@;
            assert(self.prefix_keys(n) =~= self.prefix_keys(n - 1).insert(k));
            assert(!self.prefix_keys(n - 1).contains(k)) by {
                if self.prefix_keys(n - 1).contains(k) {
                    let i = choose|i: int| 0 <= i < n - 1 && (#[trigger] self.entries@[i]).0@ == k;
                    assert(self.entries@[i].0@ != self.entries@[n - 1].0@);
                }
            }
        }
        if n == self.entries@.len() {
            assert(self.prefix_keys(n) =~= self.view().dom());
        }
    }

    /// An empty table.
    pub fn new() -> (r: Self)
        ensures
            r.wf(),
            r.view() == Map::<Seq<u8>, T>::empty(),
            r.entry_seq().len() == 0,
    {
        let r = DuidTable { entries: Vec::new() };
        assert(r.view() =~= Map::<Seq<u8>, T>::empty());
        r
    }

    /// The number of entries.
    pub fn len(&self) -> (n: usize)
        requires
            self.wf(),
        ensures
            n == self.view().len(),
            n == self.entry_seq().len(),
    {
        proof {
            self.lemma_entries();
        }
        self.entries.len()
    }

    /// The entries, for walking the table.
    pub fn as_slice(&self) -> (s: &[(Vec<u8>, T)])
        ensures
            s@ == self.entry_seq(),
    {
        self.entries.as_slice()
    }

    fn find(&self, key: &[u8]) -> (r: Option<usize>)
        requires
            self.wf(),
        ensures
            match r {
                Some(i) => i < self.entries@.len() && self.entries@[i as int].0@ == key@,
                None => !self.has_key(key@),
            },
    {
        let mut i: usize = 0;
        while i < self.entries.len()
            invariant
                i <= self.entries@.len(),
                forall|j: int| 0 <= j < i ==> (#[trigger] self.entries@[j]).0@ != key@,
            decreases self.entries@.len() - i,
        {
            if bytes_equal(self.entries[i].0.as_slice(), key) {
                return Some(i);
            }
            i += 1;
        }
        None
    }

    /// Whether the table holds `key`.
    pub fn contains_key(&self, key: &[u8]) -> (r: bool)
        requires
            self.wf(),
        ensures
            r == self.view().contains_key(key@),
    {
        self.find(key).is_some()
    }

    /// The value stored under `key`.
    pub fn get(&self, key: &[u8]) -> (r: Option<&T>)
        requires
            self.wf(),
        ensures
            match r {
                Some(v) => self.view().contains_key(key@) && *v == self.view()[key@],
                None => !self.view().contains_key(key@),
            },
    {
        match self.find(key) {
            Some(i) => {
                proof {
                    self.lemma_slot(i as int);
                }
                Some(&self.entries[i].1)
            },
            None => None,
        }
    }

    /// Stores `value` under `key`, replacing what was there.
    pub fn insert(&mut self, key: Vec<u8>, value: T)
        requires
            old(self).wf(),
        ensures
            final(self).wf(),
            final(self).view() == old(self).view().insert(key@, value),
    {
        let _ = self.remove(key.as_slice());
        let ghost mid = *self;
        let ghost k = key@;
        self.entries.push((key, value));
        proof {
            let n = mid.entries@.len();
            assert forall|i: int, j: int| 0 <= i < j < self.entries@.len() implies (
            #[trigger] self.entries@[i]).0@ != (#[trigger] self.entries@[j]).0@ by {
                if j == n {
                    assert(mid.entries@[i] == self.entries@[i]);
                    assert(self.entries@[j].0@ == k);
                    if mid.entries@[i].0@ == k {
                        assert(mid.has_key(k));
                        assert(mid.view().contains_key(k));
                    }
                } else {
                    assert(mid.entries@[i] == self.entries@[i]);
                    assert(mid.entries@[j] == self.entries@[j]);
                }
            }
            assert forall|q: Seq<u8>| #[trigger] self.has_key(q) == (mid.has_key(q) || q == k) by {
                if mid.has_key(q) {
                    let i = mid.slot_of(q);
                    assert(self.entries@[i] == mid.entries@[i]);
                }
                if q == k {
                    assert(self.entries@[n as int].0@ == k);
                }
                if self.has_key(q) && q != k {
                    let i = self.slot_of(q);
                    assert(i < n);
                    assert(mid.entries@[i] == self.entries@[i]);
                }
            }
            assert forall|q: Seq<u8>| self.view().contains_key(q) implies self.view()[q] == (
            if q == k {
                value
            } else {
                mid.view()[q]
            }) by {
                if q == k {
                    self.lemma_slot(n as int);
                } else {
                    let i = mid.slot_of(q);
                    mid.lemma_slot(i);
                    assert(self.entries@[i] == mid.entries@[i]);
                    self.lemma_slot(i);
                }
            }
            assert(self.view() =~= mid.view().insert(k, value));
        }
    }

    /// Takes the value stored under `key` out of the table.
    pub fn remove(&mut self, key: &[u8]) -> (r: Option<T>)
        requires
            old(self).wf(),
        ensures
            final(self).wf(),
            final(self).view() == old(self).view().remove(key@),
            match r {
                Some(v) => old(self).view().contains_key(key@) && v == old(self).view()[key@],
                None => !old(self).view().contains_key(key@),
            },
    {
        match self.find(key) {
            None => {
                assert(self.view() =~= self.view().remove(key@));
                None
            },
            Some(i) => {
                let ghost before = *self;
                proof {
                    before.lemma_slot(i as int);
                }
                let (_, v) = self.entries.remove(i);
                proof {
                    self.lemma_after_removal(before, i as int);
                }
                Some(v)
            },
        }
    }

    proof fn lemma_after_removal(self, before: Self, i: int)
        requires
            before.wf(),
            0 <= i < before.entries@.len(),
            self.entries@ == before.entries@.remove(i),
        ensures
            self.wf(),
            self.view() == before.view().remove(before.entries@[i].0@),
    {
        let k = before.entries@[i].0@;
        let n = before.entries@.len();
        assert forall|a: int, b: int| 0 <= a < b < self.entries@.len() implies (
        #[trigger] self.entries@[a]).0@ != (#[trigger] self.entries@[b]).0@ by {
            let a2 = if a < i {
                a
            } else {
                a + 1
            };
            let b2 = if b < i {
                b
            } else {
                b + 1
            };
            assert(self.entries@[a] == before.entries@[a2]);
            assert(self.entries@[b] == before.entries@[b2]);
        }
        assert forall|q: Seq<u8>| #[trigger] self.has_key(q) == (before.has_key(q) && q != k) by {
            if self.has_key(q) {
                let j = self.slot_of(q);
                let j2 = if j < i {
                    j
                } else {
                    j + 1
                };
                assert(self.entries@[j] == before.entries@[j2]);
                before.lemma_slot(j2);
                if q == k {
                    before.lemma_slot(i);
                }
            }
            if before.has_key(q) && q != k {
                let j = before.slot_of(q);
                let j1 = if j < i {
                    j
                } else {
                    j - 1
                };
                assert(self.entries@[j1] == before.entries@[j]);
            }
        }
        assert forall|q: Seq<u8>| self.view().contains_key(q) implies self.view()[q]
            == before.view()[q] by {
            let j = self.slot_of(q);
            self.lemma_slot(j);
            let j2 = if j < i {
                j
            } else {
                j + 1
            };
            assert(self.entries@[j] == before.entries@[j2]);
            before.lemma_slot(j2);
        }
        assert(self.view() =~= before.view().remove(k));
    }
}

/// The values of `m` that have lapsed at `now`, keyed as in `m`.
pub open spec fn lapsed_part<T: Lapsing>(m: Map<Seq<u8>, T>, now: u64) -> Map<Seq<u8>, T> {
    m.restrict(m.dom().filter(|k: Seq<u8>| m[k].lapsed(now)))
}

/// `v` is the value of some key of `m`, and has lapsed at `now`.
pub open spec fn is_lapsed_value<T: Lapsing>(m: Map<Seq<u8>, T>, now: u64, v: T) -> bool {
    exists|k: Seq<u8>| #[trigger] m.contains_key(k) && m[k] == v && v.lapsed(now)
}

/// What stays of `m` once the values lapsed at `now` are dropped.
pub open spec fn kept_part<T: Lapsing>(m: Map<Seq<u8>, T>, now: u64) -> Map<Seq<u8>, T> {
    m.restrict(m.dom().filter(|k: Seq<u8>| !m[k].lapsed(now)))
}

impl<T: Lapsing> DuidTable<T> {
    /// Drops every entry lapsed at `now` and hands their values back.
    pub fn remove_lapsed(&mut self, now: u64) -> (removed: Vec<T>)
        requires
            old(self).wf(),
        ensures
            final(self).wf(),
            final(self).view() == kept_part(old(self).view(), now),
            forall|i: int|
                0 <= i < removed@.len() ==> is_lapsed_value(old(self).view(), now, #[trigger] removed@[i]),
            forall|k: Seq<u8>| #[trigger]
                lapsed_part(old(self).view(), now).contains_key(k) ==> removed@.contains(
                    old(self).view()[k],
                ),
    {
        let ghost orig = *self;
        let mut removed: Vec<T> = Vec::new();
        let mut i: usize = self.entries.len();
        while i > 0
            invariant
                orig.wf(),
                self.wf(),
                i <= self.entries@.len(),
                i <= orig.entries@.len(),
                forall|j: int| 0 <= j < i ==> self.entries@[j] == orig.entries@[j],
                forall|j: int|
                    i <= j < self.entries@.len() ==> !(#[trigger] self.entries@[j]).1.lapsed(
                        now,
                    ),
                // Exactly the keys of the unvisited part or the kept ones remain.
                forall|q: Seq<u8>| #[trigger]
                    self.view().contains_key(q) == (orig.view().contains_key(q) && (
                    !orig.view()[q].lapsed(now) || exists|j: int|
                        0 <= j < i && (#[trigger] orig.entries@[j]).0@ == q)),
                forall|q: Seq<u8>|
                    self.view().contains_key(q) ==> #[trigger] self.view()[q] == orig.view()[q],
                forall|r: int|
                    0 <= r < removed@.len() ==> is_lapsed_value(orig.view(), now, #[trigger] removed@[r]),
                forall|j: int|
                    i <= j < orig.entries@.len() && (#[trigger] orig.entries@[j]).1.lapsed(now)
                        ==> removed@.contains(orig.entries@[j].1),
            decreases i,
        {
            i -= 1;
            let lapsed = self.entries[i].1.is_lapsed(now);
            if lapsed {
                let ghost before = *self;
                let ghost removed_before = removed@;
                proof {
                    before.lemma_slot(i as int);
                    orig.lemma_slot(i as int);
                }
                let (_, v) = self.entries.remove(i);
                proof {
                    self.lemma_after_removal(before, i as int);
                }
                removed.push(v);
                proof {
                    let k = orig.entries@[i as int].0@;
                    assert(lapsed_part(orig.view(), now).contains_key(k));
                    assert(removed@[removed@.len() - 1] == orig.entries@[i as int].1);
                    assert(orig.view().contains_key(k) && orig.view()[k] == orig.entries@[i as int].1);
                    assert forall|r: int| 0 <= r < removed@.len() implies is_lapsed_value(
                        orig.view(),
                        now,
                        #[trigger] removed@[r],
                    ) by {
                        if r < removed_before.len() {
                            assert(removed@[r] == removed_before[r]);
                        }
                    }
                    assert forall|j: int|
                        i <= j < orig.entries@.len() && (#[trigger] orig.entries@[j]).1.lapsed(
                            now,
                        ) implies removed@.contains(orig.entries@[j].1) by {
                        if j == i {
                            assert(removed@[removed@.len() - 1] == orig.entries@[j].1);
                        } else {
                            assert(removed_before.contains(orig.entries@[j].1));
                            let r = choose|r: int|
                                0 <= r < removed_before.len() && removed_before[r]
                                    == orig.entries@[j].1;
                            assert(removed@[r] == removed_before[r]);
                        }
                    }
                    assert forall|q: Seq<u8>| #[trigger]
                        self.view().contains_key(q) == (orig.view().contains_key(q) && (
                        !orig.view()[q].lapsed(now) || exists|j: int|
                            0 <= j < i && (#[trigger] orig.entries@[j]).0@ == q)) by {
                        if orig.view().contains_key(q) && exists|j: int|
                            0 <= j < i + 1 && (#[trigger] orig.entries@[j]).0@ == q {
                            let j = choose|j: int|
                                0 <= j < i + 1 && (#[trigger] orig.entries@[j]).0@ == q;
                            if j == i {
                                if exists|j2: int|
                                    0 <= j2 < i && (#[trigger] orig.entries@[j2]).0@ == q {
                                    let j2 = choose|j2: int|
                                        0 <= j2 < i && (#[trigger] orig.entries@[j2]).0@ == q;
                                    assert(orig.entries@[j2].0@ != orig.entries@[j].0@);
                                }
                            }
                        }
                    }
                }
            } else {
                proof {
                    orig.lemma_slot(i as int);
                    assert forall|q: Seq<u8>| #[trigger]
                        self.view().contains_key(q) == (orig.view().contains_key(q) && (
                        !orig.view()[q].lapsed(now) || exists|j: int|
                            0 <= j < i && (#[trigger] orig.entries@[j]).0@ == q)) by {
                        if orig.view().contains_key(q) && exists|j: int|
                            0 <= j < i + 1 && (#[trigger] orig.entries@[j]).0@ == q {
                            let j = choose|j: int|
                                0 <= j < i + 1 && (#[trigger] orig.entries@[j]).0@ == q;
                            if j == i {
                                assert(orig.view()[q] == orig.entries@[j].1);
                            }
                        }
                    }
                }
            }
        }
        proof {
            assert forall|q: Seq<u8>| self.view().contains_key(q) implies !self.view()[q].lapsed(
                now,
            ) by {
                let j = self.slot_of(q);
                self.lemma_slot(j);
            }
            assert(self.view() =~= kept_part(orig.view(), now));
            assert forall|k: Seq<u8>| #[trigger]
                lapsed_part(orig.view(), now).contains_key(k) implies removed@.contains(
                orig.view()[k],
            ) by {
                let j = orig.slot_of(k);
                orig.lemma_slot(j);
            }
        }
        removed
    }
}

/// Byte-wise equality of two slices.
pub fn bytes_equal(a: &[u8], b: &[u8]) -> (r: bool)
    ensures
        r == (a@ == b@),
{
    if a.len() != b.len() {
        return false;
    }
    let mut i: usize = 0;
    while i < a.len()
        invariant
            a@.len() == b@.len(),
            i <= a@.len(),
            forall|j: int| 0 <= j < i ==> a@[j] == b@[j],
        decreases a@.len() - i,
    {
        if a[i] != b[i] {
            return false;
        }
        i += 1;
    }
    assert(a@ =~= b@);
    true
}

} // verus!
