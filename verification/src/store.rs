use vstd::prelude::*;

verus! {

/// A value that can be kept in a [`Store`]: it has a mathematical model and
/// can be duplicated without changing that model.
pub trait Stored: Sized {
    type Model;

    spec fn model(&self) -> Self::Model;

    fn duplicate(&self) -> (r: Self)
        ensures
            r.model() == self.model(),
    ;
}

/// A value that can serve as a key of a [`Store`]: two keys are the same key
/// exactly when their models agree.
pub trait StoreKey: Stored {
    fn same_key(&self, other: &Self) -> (r: bool)
        ensures
            r == (self.model() == other.model()),
    ;
}

impl Stored for u64 {
    type Model = u64;

    open spec fn model(&self) -> u64 {
        *self
    }

    fn duplicate(&self) -> (r: u64) {
        *self
    }
}

impl StoreKey for u64 {
    fn same_key(&self, other: &u64) -> (r: bool) {
        *self == *other
    }
}

/// A finite keyed store: the model of one storage area of the contract.
/// Its view is the map from key models to value models.
pub struct Store<K: StoreKey, V: Stored> {
    keys: Vec<K>,
    vals: Vec<V>,
    contents: Ghost<Map<K::Model, V::Model>>,
}

impl<K: StoreKey, V: Stored> View for Store<K, V> {
    type V = Map<K::Model, V::Model>;

    closed spec fn view(&self) -> Map<K::Model, V::Model> {
        self.contents@
    }
}

impl<K: StoreKey, V: Stored> Store<K, V> {
    #[verifier::type_invariant]
    spec fn well_formed(self) -> bool {
        &&& self.keys.len() == self.vals.len()
        &&& self.contents@.dom().finite()
        &&& forall|i: int, j: int|
            0 <= i < j < self.keys.len() ==> (#[trigger] self.keys@[i].model()) != (
            #[trigger] self.keys@[j].model())
        &&& forall|i: int|
            0 <= i < self.keys.len() ==> self.contents@.contains_key(
                #[trigger] self.keys@[i].model(),
            ) && self.contents@[self.keys@[i].model()] == self.vals@[i].model()
        &&& forall|k: K::Model| #[trigger]
            self.contents@.contains_key(k) ==> exists|i: int|
                0 <= i < self.keys.len() && self.keys@[i].model() == k
    }

    /// An empty store.
    pub fn new() -> (r: Self)
        ensures
            r.view() == Map::<K::Model, V::Model>::empty(),
            r.view().dom().finite(),
    {
        Store { keys: Vec::new(), vals: Vec::new(), contents: Ghost(Map::empty()) }
    }

    fn find(&self, k: &K) -> (r: Option<usize>)
        ensures
            match r {
                Some(i) => i < self.keys.len() && self.keys@[i as int].model() == k.model(),
                None => !self.view().contains_key(k.model()),
            },
    {
        proof {
            use_type_invariant(self);
        }
        let n: usize = self.keys.len();
        let mut i: usize = 0;
        while i < n
            invariant
                n == self.keys.len(),
                i <= n,
                forall|j: int| 0 <= j < i ==> self.keys@[j].model() != k.model(),
            decreases n - i,
        {
            if self.keys[i].same_key(k) {
                return Some(i);
            }
            i = i + 1;
        }
        proof {
            if self.view().contains_key(k.model()) {
                let j: int = choose|j: int| 0 <= j < self.keys.len() && self.keys@[j].model() == k.model();
                assert(self.keys@[j].model() != k.model());
            }
        }
        None
    }

    /// Whether the store holds an entry under `k`.
    pub fn contains_key(&self, k: &K) -> (r: bool)
        ensures
            r == self.view().contains_key(k.model()),
            self.view().dom().finite(),
    {
        proof {
            use_type_invariant(self);
        }
        self.find(k).is_some()
    }

    /// The entry under `k`, if there is one.
    pub fn get(&self, k: &K) -> (r: Option<&V>)
        ensures
            match r {
                Some(v) => self.view().contains_key(k.model()) && v.model() == self.view()[k.model()],
                None => !self.view().contains_key(k.model()),
            },
    {
        proof {
            use_type_invariant(self);
        }
        match self.find(k) {
            Some(i) => Some(&self.vals[i]),
            None => None,
        }
    }

    /// Puts `v` under `k`, replacing any entry that was there.
    pub fn insert(&mut self, k: K, v: V)
        ensures
            final(self).view() == old(self).view().insert(k.model(), v.model()),
            old(self).view().dom().finite(),
            final(self).view().dom().finite(),
    {
        proof {
            use_type_invariant(&*self);
        }
        let ghost km = k.model();
        let ghost vm = v.model();
        let found = self.find(&k);
        let mut taken = Store::new();
        std::mem::swap(&mut taken, self);
        proof {
            use_type_invariant(&taken);
        }
        let Store { mut keys, mut vals, contents } = taken;
        let ghost old_keys = keys@;
        let ghost old_vals = vals@;
        let ghost new_contents = contents@.insert(km, vm);
        match found {
            Some(i) => {
                vals.set(i, v);
                assert forall|j: int|
                    0 <= j < keys.len() implies new_contents.contains_key(
                    #[trigger] keys@[j].model(),
                ) && new_contents[keys@[j].model()] == vals@[j].model() by {
                    if j != i {
                        assert(old_keys[j].model() != old_keys[i as int].model());
                    }
                }
                assert forall|kk: K::Model| #[trigger]
                    new_contents.contains_key(kk) implies exists|j: int|
                    0 <= j < keys.len() && keys@[j].model() == kk by {
                    if kk != km {
                        assert(contents@.contains_key(kk));
                    } else {
                        assert(keys@[i as int].model() == kk);
                    }
                }
            },
            None => {
                keys.push(k);
                vals.push(v);
                assert forall|a: int, b: int|
                    0 <= a < b < keys.len() implies (#[trigger] keys@[a].model()) != (
                    #[trigger] keys@[b].model()) by {
                    if b == keys.len() - 1 {
                        assert(contents@.contains_key(old_keys[a].model()));
                    } else {
                        assert(old_keys[a].model() != old_keys[b].model());
                    }
                }
                assert forall|j: int|
                    0 <= j < keys.len() implies new_contents.contains_key(
                    #[trigger] keys@[j].model(),
                ) && new_contents[keys@[j].model()] == vals@[j].model() by {
                    if j < keys.len() - 1 {
                        assert(contents@.contains_key(old_keys[j].model()));
                        assert(old_keys[j].model() != km);
                    }
                }
                assert forall|kk: K::Model| #[trigger]
                    new_contents.contains_key(kk) implies exists|j: int|
                    0 <= j < keys.len() && keys@[j].model() == kk by {
                    if kk != km {
                        assert(contents@.contains_key(kk));
                        let j: int = choose|j: int|
                            0 <= j < old_keys.len() && old_keys[j].model() == kk;
                        assert(keys@[j].model() == kk);
                    } else {
                        assert(keys@[keys.len() - 1].model() == kk);
                    }
                }
            },
        }
        *self = Store { keys, vals, contents: Ghost(new_contents) };
    }

    /// Drops the entry under `k`, if there is one.
    pub fn remove(&mut self, k: &K)
        ensures
            final(self).view() == old(self).view().remove(k.model()),
            old(self).view().dom().finite(),
            final(self).view().dom().finite(),
    {
        proof {
            use_type_invariant(&*self);
        }
        let ghost km = k.model();
        let found = self.find(k);
        match found {
            None => {
                assert(self.view().remove(km) =~= self.view());
            },
            Some(i) => {
                let mut taken = Store::new();
                std::mem::swap(&mut taken, self);
                proof {
                    use_type_invariant(&taken);
                }
                let Store { mut keys, mut vals, contents } = taken;
                let ghost old_keys = keys@;
                let ghost old_vals = vals@;
                let ghost new_contents = contents@.remove(km);
                keys.remove(i);
                vals.remove(i);
                assert forall|a: int, b: int|
                    0 <= a < b < keys.len() implies (#[trigger] keys@[a].model()) != (
                    #[trigger] keys@[b].model()) by {
                    let oa: int = if a < i { a } else { a + 1 };
                    let ob: int = if b < i { b } else { b + 1 };
                    assert(keys@[a] == old_keys[oa]);
                    assert(keys@[b] == old_keys[ob]);
                    assert(old_keys[oa].model() != old_keys[ob].model());
                }
                assert forall|j: int|
                    0 <= j < keys.len() implies new_contents.contains_key(
                    #[trigger] keys@[j].model(),
                ) && new_contents[keys@[j].model()] == vals@[j].model() by {
                    let oj: int = if j < i { j } else { j + 1 };
                    assert(keys@[j] == old_keys[oj]);
                    assert(vals@[j] == old_vals[oj]);
                    assert(old_keys[oj].model() != old_keys[i as int].model());
                    assert(contents@.contains_key(old_keys[oj].model()));
                }
                assert forall|kk: K::Model| #[trigger]
                    new_contents.contains_key(kk) implies exists|j: int|
                    0 <= j < keys.len() && keys@[j].model() == kk by {
                    assert(contents@.contains_key(kk));
                    let oj: int = choose|j: int| 0 <= j < old_keys.len() && old_keys[j].model() == kk;
                    assert(oj != i);
                    let j: int = if oj < i { oj } else { oj - 1 };
                    assert(keys@[j] == old_keys[oj]);
                }
                let ghost st = Store::<K, V> { keys, vals, contents: Ghost(new_contents) };
                assert(st.keys.len() == st.vals.len());
                assert(st.contents@.dom().finite());
                assert(forall|a: int, b: int|
                    0 <= a < b < st.keys.len() ==> (#[trigger] st.keys@[a].model()) != (
                    #[trigger] st.keys@[b].model()));
                assert(forall|j: int|
                    0 <= j < st.keys.len() ==> st.contents@.contains_key(
                    #[trigger] st.keys@[j].model(),
                ) && st.contents@[st.keys@[j].model()] == st.vals@[j].model());
                assert(forall|kk: K::Model| #[trigger]
                    st.contents@.contains_key(kk) ==> exists|j: int|
                    0 <= j < st.keys.len() && st.keys@[j].model() == kk);
                *self = Store { keys, vals, contents: Ghost(new_contents) };
            },
        }
    }
}

} // verus!
