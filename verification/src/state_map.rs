//! A finite map from state cells to values, kept as two parallel vectors
//! without repeated keys.

use vstd::prelude::*;
use crate::felt::{ClassHash, ContractAddress, Felt, StorageKey};

verus! {

/// One cell of chain state.
#[derive(Clone, Copy, Debug, PartialEq, Eq, Hash, Structural)]
pub enum CellKey {
    /// A storage cell of a contract.
    Storage(ContractAddress, StorageKey),
    /// The nonce of a contract.
    Nonce(ContractAddress),
    /// The class hash of the contract deployed at an address.
    ClassHash(ContractAddress),
    /// The compiled class hash that belongs to a class hash.
    CompiledClassHash(ClassHash),
    /// Whether a class was declared: zero when it was not.
    Declared(ClassHash),
}

impl CellKey {
    /// The contract a cell belongs to, for the cells that belong to one.
    pub open spec fn spec_contract(self) -> Option<ContractAddress> {
        match self {
            CellKey::Storage(address, _) => Some(address),
            CellKey::Nonce(address) => Some(address),
            CellKey::ClassHash(address) => Some(address),
            CellKey::CompiledClassHash(_) => None,
            CellKey::Declared(_) => None,
        }
    }

    /// The contract a cell belongs to, for the cells that belong to one.
    pub fn contract(&self) -> (r: Option<ContractAddress>)
        ensures
            r == self.spec_contract(),
    {
        match self {
            CellKey::Storage(address, _) => Some(*address),
            CellKey::Nonce(address) => Some(*address),
            CellKey::ClassHash(address) => Some(*address),
            CellKey::CompiledClassHash(_) => None,
            CellKey::Declared(_) => None,
        }
    }
}

/// A finite map from cells to values.
#[derive(Debug)]
pub struct StateMap {
    keys: Vec<CellKey>,
    values: Vec<Felt>,
}

impl StateMap {
    /// The keys in the order they were first written.
    pub closed spec fn spec_keys(&self) -> Seq<CellKey> {
        self.keys@
    }

    /// The values, in the order of the keys.
    pub closed spec fn spec_values(&self) -> Seq<Felt> {
        self.values@
    }

    /// One key never stands twice, and each key has its value.
    pub open spec fn valid(&self) -> bool {
        &&& self.spec_keys().len() == self.spec_values().len()
        &&& self.spec_keys().no_duplicates()
    }

    /// The map this value stands for.
    pub open spec fn view(&self) -> Map<CellKey, Felt> {
        Map::new(
            |k: CellKey| self.spec_keys().contains(k),
            |k: CellKey| self.spec_values()[self.spec_keys().index_of(k)],
        )
    }

    /// In a valid map the value at a position belongs to the key at that
    /// position, and the domain is finite with as many keys as positions.
    pub proof fn lemma_view(&self)
        requires
            self.valid(),
        ensures
            forall|i: int|
                0 <= i < self.spec_keys().len() ==> #[trigger] self@.contains_key(
                    self.spec_keys()[i],
                ) && self@[self.spec_keys()[i]] == self.spec_values()[i],
            self@.dom() =~= self.spec_keys().to_set(),
            self@.dom().finite(),
            self@.dom().len() == self.spec_keys().len(),
    {
        let keys = self.spec_keys();
        assert forall|i: int| 0 <= i < keys.len() implies #[trigger] self@.contains_key(keys[i])
            && self@[keys[i]] == self.spec_values()[i] by {
            assert(keys.contains(keys[i]));
            let j = keys.index_of(keys[i]);
            assert(0 <= j < keys.len() && keys[j] == keys[i]);
        }
        assert(self@.dom() =~= keys.to_set());
        keys.unique_seq_to_set();
        vstd::seq_lib::seq_to_set_is_finite(keys);
    }

    /// The map without any key.
    pub fn new() -> (r: StateMap)
        ensures
            r@ == Map::<CellKey, Felt>::empty(),
            r.valid(),
            r.spec_keys().len() == 0,
    {
        let r = StateMap { keys: Vec::new(), values: Vec::new() };
        assert(r@ =~= Map::<CellKey, Felt>::empty());
        r
    }

    /// The number of keys.
    pub fn len(&self) -> (r: usize)
        requires
            self.valid(),
        ensures
            r == self.spec_keys().len(),
            r == self@.dom().len(),
            self@.dom().finite(),
    {
        proof {
            self.lemma_view();
        }
        self.keys.len()
    }

    /// The key at a position.
    pub fn key_at(&self, i: usize) -> (r: CellKey)
        requires
            i < self.spec_keys().len(),
            self.valid(),
        ensures
            r == self.spec_keys()[i as int],
            self@.contains_key(r),
    {
        proof {
            self.lemma_view();
        }
        self.keys[i]
    }

    /// The value at a position.
    pub fn value_at(&self, i: usize) -> (r: Felt)
        requires
            i < self.spec_keys().len(),
            self.valid(),
        ensures
            r == self.spec_values()[i as int],
            r == self@[self.spec_keys()[i as int]],
    {
        proof {
            self.lemma_view();
        }
        self.values[i]
    }

    fn position(&self, key: &CellKey) -> (r: Option<usize>)
        requires
            self.valid(),
        ensures
            match r {
                Some(i) => i < self.spec_keys().len() && self.spec_keys()[i as int] == *key,
                None => !self.spec_keys().contains(*key),
            },
    {
        let mut i: usize = 0;
        while i < self.keys.len()
            invariant
                i <= self.keys@.len(),
                forall|j: int| 0 <= j < i ==> self.keys@[j] != *key,
            decreases self.keys@.len() - i,
        {
            if self.keys[i] == *key {
                return Some(i);
            }
            i += 1;
        }
        None
    }

    /// Whether the key is in the map.
    pub fn contains_key(&self, key: &CellKey) -> (r: bool)
        requires
            self.valid(),
        ensures
            r == self@.contains_key(*key),
    {
        self.position(key).is_some()
    }

    /// The value of the key, if it is in the map.
    pub fn get(&self, key: &CellKey) -> (r: Option<Felt>)
        requires
            self.valid(),
        ensures
            r == if self@.contains_key(*key) {
                Some(self@[*key])
            } else {
                None
            },
    {
        match self.position(key) {
            Some(i) => {
                proof {
                    self.lemma_view();
                }
                Some(self.values[i])
            },
            None => None,
        }
    }

    /// Sets the value of the key, whether or not it was in the map.
    pub fn insert(&mut self, key: CellKey, value: Felt)
        requires
            old(self).valid(),
        ensures
            final(self)@ == old(self)@.insert(key, value),
            final(self).valid(),
            old(self)@.contains_key(key) ==> final(self).spec_keys() == old(self).spec_keys(),
            !old(self)@.contains_key(key) ==> final(self).spec_keys() == old(self).spec_keys().push(
                key,
            ),
    {
        proof {
            self.lemma_view();
        }
        let ghost before = *self;
        match self.position(&key) {
            Some(i) => {
                self.values.set(i, value);
                proof {
                    self.lemma_view();
                    assert forall|k: CellKey| #[trigger]
                        self@.contains_key(k) == before@.insert(key, value).contains_key(k) by {}
                    assert forall|k: CellKey| #[trigger] self@.contains_key(k) implies self@[k]
                        == before@.insert(key, value)[k] by {
                        let j = self.keys@.index_of(k);
                        assert(0 <= j < self.keys@.len() && self.keys@[j] == k);
                    }
                    assert(self@ =~= before@.insert(key, value));
                }
            },
            None => {
                self.keys.push(key);
                self.values.push(value);
                proof {
                    let keys = self.keys@;
                    assert(keys.no_duplicates()) by {
                        assert forall|a: int, b: int|
                            0 <= a < keys.len() && 0 <= b < keys.len() && a != b implies keys[a]
                            != keys[b] by {
                            if a < before.keys@.len() && b < before.keys@.len() {
                            } else if a < before.keys@.len() {
                                assert(before.keys@.contains(keys[a]));
                            } else {
                                assert(before.keys@.contains(keys[b]));
                            }
                        }
                    }
                    self.lemma_view();
                    assert forall|k: CellKey| #[trigger]
                        self@.contains_key(k) == before@.insert(key, value).contains_key(k) by {
                        if before.keys@.contains(k) {
                            let j = before.keys@.index_of(k);
                            assert(0 <= j < before.keys@.len() && before.keys@[j] == k);
                            assert(keys[j] == k);
                        }
                        if keys.contains(k) && k != key {
                            let j = keys.index_of(k);
                            assert(0 <= j < keys.len() && keys[j] == k);
                            assert(before.keys@[j] == k);
                        }
                        if k == key {
                            assert(keys[keys.len() - 1] == k);
                        }
                    }
                    assert forall|k: CellKey| #[trigger] self@.contains_key(k) implies self@[k]
                        == before@.insert(key, value)[k] by {
                        let j = keys.index_of(k);
                        assert(0 <= j < keys.len() && keys[j] == k);
                        if k != key {
                            assert(before.keys@[j] == k);
                            assert(before@[before.keys@[j]] == before.values@[j]);
                        } else {
                            assert(keys[keys.len() - 1] == k);
                        }
                    }
                    assert(self@ =~= before@.insert(key, value));
                }
            },
        }
    }

    /// Takes the key out of the map, if it is there.
    pub fn remove(&mut self, key: &CellKey)
        requires
            old(self).valid(),
        ensures
            final(self)@ == old(self)@.remove(*key),
            final(self).valid(),
    {
        proof {
            self.lemma_view();
        }
        let ghost before = *self;
        match self.position(key) {
            Some(i) => {
                self.keys.remove(i);
                self.values.remove(i);
                proof {
                    let keys = self.keys@;
                    let old_keys = before.keys@;
                    assert(keys =~= old_keys.remove(i as int));
                    assert(keys.no_duplicates()) by {
                        assert forall|a: int, b: int|
                            0 <= a < keys.len() && 0 <= b < keys.len() && a != b implies keys[a]
                            != keys[b] by {
                            let a2 = if a < i {
                                a
                            } else {
                                a + 1
                            };
                            let b2 = if b < i {
                                b
                            } else {
                                b + 1
                            };
                            assert(keys[a] == old_keys[a2]);
                            assert(keys[b] == old_keys[b2]);
                        }
                    }
                    self.lemma_view();
                    assert forall|k: CellKey| #[trigger]
                        self@.contains_key(k) == before@.remove(*key).contains_key(k) by {
                        if keys.contains(k) {
                            let j = keys.index_of(k);
                            assert(0 <= j < keys.len() && keys[j] == k);
                            let j2 = if j < i {
                                j
                            } else {
                                j + 1
                            };
                            assert(old_keys[j2] == k);
                        }
                        if old_keys.contains(k) && k != *key {
                            let j = old_keys.index_of(k);
                            assert(0 <= j < old_keys.len() && old_keys[j] == k);
                            let j2 = if j < i {
                                j
                            } else {
                                j - 1
                            };
                            assert(keys[j2] == k);
                        }
                    }
                    assert forall|k: CellKey| #[trigger] self@.contains_key(k) implies self@[k]
                        == before@.remove(*key)[k] by {
                        let j = keys.index_of(k);
                        assert(0 <= j < keys.len() && keys[j] == k);
                        let j2 = if j < i {
                            j
                        } else {
                            j + 1
                        };
                        assert(old_keys[j2] == k);
                        assert(before@[old_keys[j2]] == before.values@[j2]);
                        assert(self.values@[j] == before.values@[j2]);
                    }
                    assert(self@ =~= before@.remove(*key));
                }
            },
            None => {
                assert(self@ =~= before@.remove(*key));
            },
        }
    }

    /// A copy of the map.
    pub fn duplicate(&self) -> (r: StateMap)
        requires
            self.valid(),
        ensures
            r@ == self@,
            r.valid(),
            r.spec_keys() == self.spec_keys(),
            r.spec_values() == self.spec_values(),
    {
        let mut keys: Vec<CellKey> = Vec::new();
        let mut values: Vec<Felt> = Vec::new();
        let mut i: usize = 0;
        while i < self.keys.len()
            invariant
                i <= self.keys@.len(),
                self.keys@.len() == self.values@.len(),
                keys@ == self.keys@.take(i as int),
                values@ == self.values@.take(i as int),
            decreases self.keys@.len() - i,
        {
            keys.push(self.keys[i]);
            values.push(self.values[i]);
            proof {
                assert(keys@ =~= self.keys@.take(i + 1));
                assert(values@ =~= self.values@.take(i + 1));
            }
            i += 1;
        }
        proof {
            assert(keys@ =~= self.keys@);
            assert(values@ =~= self.values@);
        }
        let r = StateMap { keys, values };
        assert(r@ =~= self@);
        r
    }
}

} // verus!
