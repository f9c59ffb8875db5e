use vstd::prelude::*;
use crate::bytes::bytes_eq;

verus! {

/// A storage map keyed by numeric identifiers, kept as parallel key and value lists
/// in which no key occurs twice.
pub struct IdMap<V> {
    keys: Vec<u128>,
    vals: Vec<V>,
}

impl<V> IdMap<V> {
    pub closed spec fn wf(&self) -> bool {
        &&& self.keys.len() == self.vals.len()
        &&& forall|i: int, j: int|
            0 <= i < self.keys.len() && 0 <= j < self.keys.len() && i != j
                ==> self.keys@[i] != self.keys@[j]
    }

    closed spec fn index_of(&self, k: u128) -> int {
        choose|i: int| 0 <= i < self.keys.len() && self.keys@[i] == k
    }

    /// The stored entries.
    pub closed spec fn view(&self) -> Map<u128, V> {
        Map::new(
            |k: u128| self.keys@.contains(k),
            |k: u128| self.vals@[self.index_of(k)],
        )
    }

    proof fn lemma_index(&self, i: int)
        requires
            self.wf(),
            0 <= i < self.keys.len(),
        ensures
            self.view().contains_key(self.keys@[i]),
            self.view()[self.keys@[i]] == self.vals@[i],
            self.index_of(self.keys@[i]) == i,
    {
        let k = self.keys@[i];
        assert(self.keys@.contains(k));
        let j = self.index_of(k);
        assert(0 <= j < self.keys.len() && self.keys@[j] == k);
    }

    pub fn new() -> (r: Self)
        ensures
            r.wf(),
            r.view() == Map::<u128, V>::empty(),
    {
        let r = IdMap { keys: Vec::new(), vals: Vec::new() };
        assert(r.view() =~= Map::<u128, V>::empty());
        r
    }

    fn find(&self, k: u128) -> (r: Option<usize>)
        requires
            self.wf(),
        ensures
            match r {
                Some(i) => i < self.keys.len() && self.keys@[i as int] == k,
                None => !self.keys@.contains(k),
            },
    {
        let mut i: usize = 0;
        while i < self.keys.len()
            invariant
                i <= self.keys.len(),
                forall|j: int| 0 <= j < i ==> self.keys@[j] != k,
            decreases self.keys.len() - i,
        {
            if self.keys[i] == k {
                return Some(i);
            }
            i = i + 1;
        }
        None
    }

    pub fn contains_key(&self, k: u128) -> (r: bool)
        requires
            self.wf(),
        ensures
            r == self.view().contains_key(k),
    {
        self.find(k).is_some()
    }

    pub fn get(&self, k: u128) -> (r: Option<&V>)
        requires
            self.wf(),
        ensures
            match r {
                Some(v) => self.view().contains_key(k) && *v == self.view()[k],
                None => !self.view().contains_key(k),
            },
    {
        match self.find(k) {
            Some(i) => {
                proof { self.lemma_index(i as int); }
                Some(&self.vals[i])
            },
            None => None,
        }
    }

    pub fn len(&self) -> (r: usize)
        requires
            self.wf(),
        ensures
            r == self.view().len(),
    {
        proof { self.lemma_len(); }
        self.keys.len()
    }

    proof fn lemma_len(&self)
        requires
            self.wf(),
        ensures
            self.view().len() == self.keys.len(),
            self.view().dom().finite(),
    {
        let s = self.keys@;
        assert(s.no_duplicates());
        s.unique_seq_to_set();
        assert(self.view().dom() =~= s.to_set());
    }

    /// The stored keys, each once.
    pub fn key_list(&self) -> (r: Vec<u128>)
        requires
            self.wf(),
        ensures
            r@.no_duplicates(),
            forall|k: u128| self.view().contains_key(k) <==> r@.contains(k),
    {
        let mut r: Vec<u128> = Vec::new();
        let mut i: usize = 0;
        while i < self.keys.len()
            invariant
                self.wf(),
                i <= self.keys.len(),
                r@ == self.keys@.subrange(0, i as int),
            decreases self.keys.len() - i,
        {
            r.push(self.keys[i]);
            i = i + 1;
            assert(r@ =~= self.keys@.subrange(0, i as int));
        }
        assert(self.keys@.subrange(0, i as int) =~= self.keys@);
        assert forall|a: int, b: int| 0 <= a < r@.len() && 0 <= b < r@.len() && a != b implies r@[a] != r@[b] by {}
        r
    }

    /// Sets the value under `k`, adding the key when it is new.
    pub fn insert(&mut self, k: u128, v: V)
        requires
            old(self).wf(),
        ensures
            final(self).wf(),
            final(self).view() == old(self).view().insert(k, v),
    {
        let ghost old_view = self.view();
        match self.find(k) {
            Some(i) => {
                self.vals.set(i, v);
                proof {
                    assert forall|j: int| 0 <= j < self.keys.len() && j != i implies self.vals@[j] == old(self).vals@[j] by {}
                    assert forall|kk: u128| #[trigger] self.view().contains_key(kk) implies self.view()[kk] == old_view.insert(k, v)[kk] by {
                        let j = choose|j: int| 0 <= j < self.keys.len() && self.keys@[j] == kk;
                        self.lemma_index(j);
                        old(self).lemma_index(j);
                    }
                    assert(self.view().dom() =~= old_view.insert(k, v).dom());
                    assert(self.view() =~= old_view.insert(k, v));
                }
            },
            None => {
                self.keys.push(k);
                self.vals.push(v);
                proof {
                    let n = self.keys.len() - 1;
                    assert(self.keys@[n] == k);
                    assert forall|kk: u128| #[trigger] self.view().contains_key(kk) implies self.view()[kk] == old_view.insert(k, v)[kk] by {
                        let j = choose|j: int| 0 <= j < self.keys.len() && self.keys@[j] == kk;
                        self.lemma_index(j);
                        if j < n {
                            old(self).lemma_index(j);
                        }
                    }
                    assert forall|kk: u128| old_view.insert(k, v).contains_key(kk) implies #[trigger] self.keys@.contains(kk) by {
                        if kk != k {
                            let j = choose|j: int| 0 <= j < old(self).keys.len() && old(self).keys@[j] == kk;
                            assert(self.keys@[j] == kk);
                        } else {
                            assert(self.keys@[n] == kk);
                        }
                    }
                    assert(self.view().dom() =~= old_view.insert(k, v).dom());
                    assert(self.view() =~= old_view.insert(k, v));
                }
            },
        }
    }

    /// Removes the entry under `k`, returning its value.
    pub fn remove(&mut self, k: u128) -> (r: Option<V>)
        requires
            old(self).wf(),
        ensures
            final(self).wf(),
            final(self).view() == old(self).view().remove(k),
            match r {
                Some(v) => old(self).view().contains_key(k) && v == old(self).view()[k],
                None => !old(self).view().contains_key(k),
            },
    {
        let ghost old_view = self.view();
        match self.find(k) {
            Some(i) => {
                proof { self.lemma_index(i as int); }
                self.keys.remove(i);
                let v = self.vals.remove(i);
                proof {
                    assert forall|a: int, b: int|
                        0 <= a < self.keys.len() && 0 <= b < self.keys.len() && a != b
                        implies self.keys@[a] != self.keys@[b] by {
                        let a0 = if a < i { a } else { a + 1 };
                        let b0 = if b < i { b } else { b + 1 };
                        assert(self.keys@[a] == old(self).keys@[a0]);
                        assert(self.keys@[b] == old(self).keys@[b0]);
                    }
                    assert forall|kk: u128| #[trigger] self.view().contains_key(kk) implies self.view()[kk] == old_view.remove(k)[kk] && kk != k by {
                        let j = choose|j: int| 0 <= j < self.keys.len() && self.keys@[j] == kk;
                        self.lemma_index(j);
                        let j0 = if j < i { j } else { j + 1 };
                        assert(old(self).keys@[j0] == kk);
                        old(self).lemma_index(j0);
                    }
                    assert forall|kk: u128| old_view.remove(k).contains_key(kk) implies #[trigger] self.keys@.contains(kk) by {
                        let j0 = choose|j: int| 0 <= j < old(self).keys.len() && old(self).keys@[j] == kk;
                        assert(j0 != i);
                        let j = if j0 < i { j0 } else { j0 - 1 };
                        assert(self.keys@[j] == kk);
                    }
                    assert(self.view().dom() =~= old_view.remove(k).dom());
                    assert(self.view() =~= old_view.remove(k));
                }
                Some(v)
            },
            None => {
                proof {
                    assert(old_view.remove(k) =~= old_view);
                }
                None
            },
        }
    }
}


/// A storage map keyed by byte strings, kept as parallel key and value lists in
/// which no key occurs twice.
pub struct BytesMap<V> {
    keys: Vec<Vec<u8>>,
    vals: Vec<V>,
}

impl<V> BytesMap<V> {
    pub closed spec fn wf(&self) -> bool {
        &&& self.keys.len() == self.vals.len()
        &&& forall|i: int, j: int|
            0 <= i < self.keys.len() && 0 <= j < self.keys.len() && i != j
                ==> self.keys@[i]@ != self.keys@[j]@
    }

    closed spec fn has(&self, k: Seq<u8>) -> bool {
        exists|i: int| 0 <= i < self.keys.len() && self.keys@[i]@ == k
    }

    closed spec fn index_of(&self, k: Seq<u8>) -> int {
        choose|i: int| 0 <= i < self.keys.len() && self.keys@[i]@ == k
    }

    /// The stored entries.
    pub closed spec fn view(&self) -> Map<Seq<u8>, V> {
        Map::new(|k: Seq<u8>| self.has(k), |k: Seq<u8>| self.vals@[self.index_of(k)])
    }

    proof fn lemma_index(&self, i: int)
        requires
            self.wf(),
            0 <= i < self.keys.len(),
        ensures
            self.view().contains_key(self.keys@[i]@),
            self.view()[self.keys@[i]@] == self.vals@[i],
            self.index_of(self.keys@[i]@) == i,
    {
        let k = self.keys@[i]@;
        assert(self.has(k));
        let j = self.index_of(k);
        assert(0 <= j < self.keys.len() && self.keys@[j]@ == k);
    }

    pub fn new() -> (r: Self)
        ensures
            r.wf(),
            r.view() == Map::<Seq<u8>, V>::empty(),
    {
        let r = BytesMap { keys: Vec::new(), vals: Vec::new() };
        assert(r.view() =~= Map::<Seq<u8>, V>::empty());
        r
    }

    fn find(&self, k: &Vec<u8>) -> (r: Option<usize>)
        requires
            self.wf(),
        ensures
            match r {
                Some(i) => i < self.keys.len() && self.keys@[i as int]@ == k@,
                None => !self.has(k@),
            },
    {
        let mut i: usize = 0;
        while i < self.keys.len()
            invariant
                i <= self.keys.len(),
                forall|j: int| 0 <= j < i ==> self.keys@[j]@ != k@,
            decreases self.keys.len() - i,
        {
            if bytes_eq(&self.keys[i], k) {
                return Some(i);
            }
            i = i + 1;
        }
        None
    }

    pub fn contains_key(&self, k: &Vec<u8>) -> (r: bool)
        requires
            self.wf(),
        ensures
            r == self.view().contains_key(k@),
    {
        self.find(k).is_some()
    }

    pub fn get(&self, k: &Vec<u8>) -> (r: Option<&V>)
        requires
            self.wf(),
        ensures
            match r {
                Some(v) => self.view().contains_key(k@) && *v == self.view()[k@],
                None => !self.view().contains_key(k@),
            },
    {
        match self.find(k) {
            Some(i) => {
                proof { self.lemma_index(i as int); }
                Some(&self.vals[i])
            },
            None => None,
        }
    }

    pub fn len(&self) -> (r: usize)
        requires
            self.wf(),
        ensures
            r == self.view().len(),
    {
        proof { self.lemma_len(); }
        self.keys.len()
    }

    proof fn lemma_len(&self)
        requires
            self.wf(),
        ensures
            self.view().len() == self.keys.len(),
            self.view().dom().finite(),
    {
        let s = self.keys@.map_values(|b: Vec<u8>| b@);
        assert forall|i: int, j: int| 0 <= i < s.len() && 0 <= j < s.len() && i != j implies s[i] != s[j] by {}
        assert(s.no_duplicates());
        s.unique_seq_to_set();
        assert forall|k: Seq<u8>| self.view().dom().contains(k) <==> s.to_set().contains(k) by {
            if self.has(k) {
                let i = choose|i: int| 0 <= i < self.keys.len() && self.keys@[i]@ == k;
                assert(s[i] == k);
            }
            if s.contains(k) {
                let i = choose|i: int| 0 <= i < s.len() && s[i] == k;
                assert(self.keys@[i]@ == k);
            }
        }
        assert(self.view().dom() =~= s.to_set());
    }

    /// The keys in the order in which the map walks them.
    pub closed spec fn key_seq(&self) -> Seq<Seq<u8>> {
        self.keys@.map_values(|b: Vec<u8>| b@)
    }

    /// The walk visits every key once.
    pub proof fn lemma_key_seq(&self)
        requires
            self.wf(),
        ensures
            self.key_seq().len() == self.view().len(),
            self.key_seq().no_duplicates(),
            forall|k: Seq<u8>| self.view().contains_key(k) <==> self.key_seq().contains(k),
    {
        self.lemma_len();
        let s = self.key_seq();
        assert forall|i: int, j: int| 0 <= i < s.len() && 0 <= j < s.len() && i != j implies s[i] != s[j] by {}
        assert forall|k: Seq<u8>| self.view().contains_key(k) <==> s.contains(k) by {
            if self.has(k) {
                let i = choose|i: int| 0 <= i < self.keys.len() && self.keys@[i]@ == k;
                assert(s[i] == k);
            }
            if s.contains(k) {
                let i = choose|i: int| 0 <= i < s.len() && s[i] == k;
                assert(self.keys@[i]@ == k);
            }
        }
    }

    /// The key at position `i` of the walk.
    pub fn key_at(&self, i: usize) -> (r: &Vec<u8>)
        requires
            self.wf(),
            i < self.key_seq().len(),
        ensures
            r@ == self.key_seq()[i as int],
    {
        &self.keys[i]
    }

    /// The number of keys, as the walk counts them.
    pub fn key_count(&self) -> (r: usize)
        ensures
            r == self.key_seq().len(),
    {
        self.keys.len()
    }

    /// Sets the value under `k`, adding the key when it is new (at the end of the walk).
    pub fn insert(&mut self, k: Vec<u8>, v: V)
        requires
            old(self).wf(),
        ensures
            final(self).wf(),
            final(self).view() == old(self).view().insert(k@, v),
            old(self).view().contains_key(k@) ==> final(self).key_seq() == old(self).key_seq(),
            !old(self).view().contains_key(k@) ==> final(self).key_seq() == old(self).key_seq().push(k@),
    {
        let ghost old_view = self.view();
        let ghost kv = k@;
        match self.find(&k) {
            Some(i) => {
                self.vals.set(i, v);
                proof {
                    assert(self.key_seq() =~= old(self).key_seq());
                    assert(old(self).has(kv)) by { assert(old(self).keys@[i as int]@ == kv); }
                    assert forall|kk: Seq<u8>| #[trigger] self.view().contains_key(kk) implies self.view()[kk] == old_view.insert(kv, v)[kk] by {
                        let j = choose|j: int| 0 <= j < self.keys.len() && self.keys@[j]@ == kk;
                        self.lemma_index(j);
                        old(self).lemma_index(j);
                    }
                    assert forall|kk: Seq<u8>| old_view.insert(kv, v).contains_key(kk) implies #[trigger] self.has(kk) by {
                        if kk != kv {
                            let j = choose|j: int| 0 <= j < old(self).keys.len() && old(self).keys@[j]@ == kk;
                            assert(self.keys@[j]@ == kk);
                        } else {
                            assert(self.keys@[i as int]@ == kk);
                        }
                    }
                    assert(self.view().dom() =~= old_view.insert(kv, v).dom());
                    assert(self.view() =~= old_view.insert(kv, v));
                }
            },
            None => {
                self.keys.push(k);
                self.vals.push(v);
                proof {
                    let n = self.keys.len() - 1;
                    assert(self.keys@[n]@ == kv);
                    assert(self.key_seq() =~= old(self).key_seq().push(kv));
                    assert forall|kk: Seq<u8>| #[trigger] self.view().contains_key(kk) implies self.view()[kk] == old_view.insert(kv, v)[kk] by {
                        let j = choose|j: int| 0 <= j < self.keys.len() && self.keys@[j]@ == kk;
                        self.lemma_index(j);
                        if j < n {
                            old(self).lemma_index(j);
                        }
                    }
                    assert forall|kk: Seq<u8>| old_view.insert(kv, v).contains_key(kk) implies #[trigger] self.has(kk) by {
                        if kk != kv {
                            let j = choose|j: int| 0 <= j < old(self).keys.len() && old(self).keys@[j]@ == kk;
                            assert(self.keys@[j]@ == kk);
                        } else {
                            assert(self.keys@[n]@ == kk);
                        }
                    }
                    assert(self.view().dom() =~= old_view.insert(kv, v).dom());
                    assert(self.view() =~= old_view.insert(kv, v));
                }
            },
        }
    }

    /// Removes the entry under `k`, returning its value.
    pub fn remove(&mut self, k: &Vec<u8>) -> (r: Option<V>)
        requires
            old(self).wf(),
        ensures
            final(self).wf(),
            final(self).view() == old(self).view().remove(k@),
            match r {
                Some(v) => old(self).view().contains_key(k@) && v == old(self).view()[k@],
                None => !old(self).view().contains_key(k@),
            },
    {
        let ghost old_view = self.view();
        match self.find(k) {
            Some(i) => {
                proof { self.lemma_index(i as int); }
                self.keys.remove(i);
                let v = self.vals.remove(i);
                proof {
                    assert forall|a: int, b: int|
                        0 <= a < self.keys.len() && 0 <= b < self.keys.len() && a != b
                        implies self.keys@[a]@ != self.keys@[b]@ by {
                        let a0 = if a < i { a } else { a + 1 };
                        let b0 = if b < i { b } else { b + 1 };
                        assert(self.keys@[a] == old(self).keys@[a0]);
                        assert(self.keys@[b] == old(self).keys@[b0]);
                    }
                    assert forall|kk: Seq<u8>| #[trigger] self.view().contains_key(kk) implies self.view()[kk] == old_view.remove(k@)[kk] && kk != k@ by {
                        let j = choose|j: int| 0 <= j < self.keys.len() && self.keys@[j]@ == kk;
                        self.lemma_index(j);
                        let j0 = if j < i { j } else { j + 1 };
                        assert(old(self).keys@[j0]@ == kk);
                        old(self).lemma_index(j0);
                    }
                    assert forall|kk: Seq<u8>| old_view.remove(k@).contains_key(kk) implies #[trigger] self.has(kk) by {
                        let j0 = choose|j: int| 0 <= j < old(self).keys.len() && old(self).keys@[j]@ == kk;
                        assert(j0 != i);
                        let j = if j0 < i { j0 } else { j0 - 1 };
                        assert(self.keys@[j]@ == kk);
                    }
                    assert(self.view().dom() =~= old_view.remove(k@).dom());
                    assert(self.view() =~= old_view.remove(k@));
                }
                Some(v)
            },
            None => {
                proof {
                    assert(old_view.remove(k@) =~= old_view);
                }
                None
            },
        }
    }
}

} // verus!
