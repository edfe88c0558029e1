//! The net state changes of a transaction, and how many of each kind the
//! fee has to cover.

use vstd::prelude::*;
use crate::felt::{ContractAddress, Felt, StorageKey};
use crate::resources::StateChangesCount;
use crate::state_laws::lemma_take_contains;
use crate::state_map::{CellKey, StateMap};

verus! {

/// The kind of a cell.
#[derive(Clone, Copy, Debug, PartialEq, Eq, Hash, Structural)]
pub enum CellKind {
    Storage,
    Nonce,
    ClassHash,
    CompiledClassHash,
    Declared,
}

/// The kind of a cell.
pub open spec fn spec_kind(key: CellKey) -> CellKind {
    match key {
        CellKey::Storage(_, _) => CellKind::Storage,
        CellKey::Nonce(_) => CellKind::Nonce,
        CellKey::ClassHash(_) => CellKind::ClassHash,
        CellKey::CompiledClassHash(_) => CellKind::CompiledClassHash,
        CellKey::Declared(_) => CellKind::Declared,
    }
}

/// The kind of a cell.
pub fn kind_of(key: &CellKey) -> (r: CellKind)
    ensures
        r == spec_kind(*key),
{
    match key {
        CellKey::Storage(_, _) => CellKind::Storage,
        CellKey::Nonce(_) => CellKind::Nonce,
        CellKey::ClassHash(_) => CellKind::ClassHash,
        CellKey::CompiledClassHash(_) => CellKind::CompiledClassHash,
        CellKey::Declared(_) => CellKind::Declared,
    }
}

/// The changed cells of the given kind.
pub open spec fn cells_of_kind(changes: Map<CellKey, Felt>, kind: CellKind) -> Set<CellKey> {
    changes.dom().filter(|k: CellKey| spec_kind(k) == kind)
}

/// The contracts that own a changed cell.
pub open spec fn modified_contracts(changes: Map<CellKey, Felt>) -> Set<ContractAddress> {
    Set::new(
        |a: ContractAddress|
            exists|k: CellKey| #[trigger] changes.contains_key(k) && k.spec_contract() == Some(a),
    )
}

/// The counts that the fee has to cover. Storage updates count the changed
/// storage cells, and one more for the sender's balance cell where the
/// changes do not hold it yet, since the fee transfer will change it. The
/// modified contracts leave out the fee-token contract.
pub open spec fn spec_count_for_fee_charge(
    changes: Map<CellKey, Felt>,
    sender_balance_key: Option<StorageKey>,
    fee_token_address: ContractAddress,
) -> (nat, nat, nat, nat) {
    let extra: nat = match sender_balance_key {
        Some(key) => if changes.contains_key(CellKey::Storage(fee_token_address, key)) {
            0
        } else {
            1
        },
        None => 0,
    };
    (
        cells_of_kind(changes, CellKind::Storage).len() + extra,
        cells_of_kind(changes, CellKind::ClassHash).len(),
        cells_of_kind(changes, CellKind::CompiledClassHash).len(),
        modified_contracts(changes).remove(fee_token_address).len(),
    )
}

/// The contracts that own one of the given cells.
pub open spec fn contracts_among(keys: Seq<CellKey>) -> Set<ContractAddress> {
    Set::new(
        |a: ContractAddress|
            exists|i: int| 0 <= i < keys.len() && (#[trigger] keys[i]).spec_contract() == Some(a),
    )
}

/// The net state changes of a layer.
#[derive(Debug)]
pub struct StateChanges {
    changes: StateMap,
}

impl StateChanges {
    /// The changed cells with their new values.
    pub closed spec fn view(&self) -> Map<CellKey, Felt> {
        self.changes@
    }

    /// Whether the list of changes names no cell twice.
    pub closed spec fn valid(&self) -> bool {
        self.changes.valid()
    }

    /// The changes that the given map lists.
    pub fn from_map(changes: StateMap) -> (r: StateChanges)
        requires
            changes.valid(),
        ensures
            r.valid(),
            r@ == changes@,
    {
        StateChanges { changes }
    }

    /// The new value of a cell, if the cell changed.
    pub fn get(&self, key: &CellKey) -> (r: Option<Felt>)
        requires
            self.valid(),
        ensures
            r == if self@.contains_key(*key) {
                Some(self@[*key])
            } else {
                None
            },
    {
        self.changes.get(key)
    }

    /// The number of changed cells.
    pub fn len(&self) -> (r: usize)
        requires
            self.valid(),
        ensures
            r == self@.dom().len(),
            self@.dom().finite(),
    {
        self.changes.len()
    }

    /// The number of changed cells of the given kind.
    pub fn count_kind(&self, kind: CellKind) -> (r: usize)
        requires
            self.valid(),
        ensures
            r == cells_of_kind(self@, kind).len(),
            cells_of_kind(self@, kind).finite(),
    {
        let n = self.changes.len();
        let ghost keys = self.changes.spec_keys();
        let ghost pred = |k: CellKey| spec_kind(k) == kind;
        let mut count: usize = 0;
        let mut j: usize = 0;
        proof {
            assert(keys.take(0).to_set().filter(pred) =~= Set::<CellKey>::empty());
        }
        while j < n
            invariant
                j <= n,
                n == keys.len(),
                keys == self.changes.spec_keys(),
                self.changes.valid(),
                pred == |k: CellKey| spec_kind(k) == kind,
                count <= j,
                count == keys.take(j as int).to_set().filter(pred).len(),
                keys.take(j as int).to_set().filter(pred).finite(),
            decreases n - j,
        {
            let k = self.changes.key_at(j);
            proof {
                let before = keys.take(j as int).to_set();
                let after = keys.take(j + 1).to_set();
                assert forall|x: CellKey| after.contains(x) <==> (before.contains(x) || x == k) by {
                    lemma_take_contains(keys, j as int, x);
                }
                assert(!before.contains(k)) by {
                    if keys.take(j as int).contains(k) {
                        let a = keys.take(j as int).index_of(k);
                        assert(keys[a] == k && keys[j as int] == k);
                    }
                }
                if spec_kind(k) == kind {
                    assert(after.filter(pred) =~= before.filter(pred).insert(k));
                } else {
                    assert(after.filter(pred) =~= before.filter(pred));
                }
            }
            if kind_of(&k) == kind {
                count += 1;
            }
            j += 1;
        }
        proof {
            assert(keys.take(n as int) =~= keys);
            self.changes.lemma_view();
            assert(keys.to_set().filter(pred) =~= cells_of_kind(self@, kind));
        }
        count
    }

    /// The contracts that own a changed cell, each once.
    pub fn get_modified_contracts(&self) -> (r: Vec<ContractAddress>)
        requires
            self.valid(),
        ensures
            r@.no_duplicates(),
            r@.to_set() == modified_contracts(self@),
            r@.len() <= self@.dom().len(),
    {
        let n = self.changes.len();
        let ghost keys = self.changes.spec_keys();
        let mut found: Vec<ContractAddress> = Vec::new();
        let mut j: usize = 0;
        proof {
            assert(found@.to_set() =~= contracts_among(keys.take(0)));
        }
        while j < n
            invariant
                j <= n,
                n == keys.len(),
                keys == self.changes.spec_keys(),
                self.changes.valid(),
                found@.no_duplicates(),
                found@.len() <= j,
                found@.to_set() =~= contracts_among(keys.take(j as int)),
            decreases n - j,
        {
            let k = self.changes.key_at(j);
            let ghost found_before = found@;
            let ghost shorter = keys.take(j as int);
            let ghost longer = keys.take(j + 1);
            proof {
                assert forall|a: ContractAddress|
                    contracts_among(longer).contains(a) <==> (contracts_among(shorter).contains(a)
                        || k.spec_contract() == Some(a)) by {
                    if contracts_among(shorter).contains(a) {
                        let i = choose|i: int|
                            0 <= i < shorter.len() && (#[trigger] shorter[i]).spec_contract()
                                == Some(a);
                        assert(longer[i].spec_contract() == Some(a));
                    }
                    if k.spec_contract() == Some(a) {
                        assert(longer[j as int].spec_contract() == Some(a));
                    }
                    if contracts_among(longer).contains(a) {
                        let i = choose|i: int|
                            0 <= i < longer.len() && (#[trigger] longer[i]).spec_contract() == Some(
                                a,
                            );
                        if i < j {
                            assert(shorter[i].spec_contract() == Some(a));
                        }
                    }
                }
            }
            match k.contract() {
                Some(address) => {
                    let mut seen = false;
                    let mut i: usize = 0;
                    while i < found.len()
                        invariant
                            i <= found@.len(),
                            found@ == found_before,
                            seen <==> exists|m: int| 0 <= m < i && found@[m] == address,
                        decreases found@.len() - i,
                    {
                        if found[i] == address {
                            seen = true;
                        }
                        i += 1;
                    }
                    if !seen {
                        found.push(address);
                        proof {
                            assert(!found_before.contains(address));
                            assert(found@ =~= found_before.push(address));
                            assert forall|a: ContractAddress|
                                found@.to_set().contains(a) <==> (found_before.to_set().contains(a)
                                    || a == address) by {
                                if found_before.contains(a) {
                                    let m = found_before.index_of(a);
                                    assert(found@[m] == a);
                                }
                                if a == address {
                                    assert(found@[found@.len() - 1] == a);
                                }
                                if found@.contains(a) {
                                    let m = found@.index_of(a);
                                    if m < found_before.len() {
                                        assert(found_before[m] == a);
                                    }
                                }
                            }
                            assert(found@.to_set() =~= contracts_among(longer));
                        }
                    } else {
                        proof {
                            assert(found@.contains(address));
                            assert(found@.to_set().contains(address));
                            assert(found@.to_set() =~= contracts_among(longer));
                        }
                    }
                },
                None => {
                    proof {
                        assert(found@.to_set() =~= contracts_among(longer));
                    }
                },
            }
            j += 1;
        }
        proof {
            assert(keys.take(n as int) =~= keys);
            self.changes.lemma_view();
            assert forall|a: ContractAddress|
                contracts_among(keys).contains(a) <==> modified_contracts(self@).contains(a) by {
                if contracts_among(keys).contains(a) {
                    let i = choose|i: int|
                        0 <= i < keys.len() && (#[trigger] keys[i]).spec_contract() == Some(a);
                    assert(self@.contains_key(keys[i]));
                }
                if modified_contracts(self@).contains(a) {
                    let k = choose|k: CellKey| #[trigger]
                        self@.contains_key(k) && k.spec_contract() == Some(a);
                    assert(keys.contains(k));
                    let i = keys.index_of(k);
                    assert(keys[i].spec_contract() == Some(a));
                }
            }
            assert(found@.to_set() =~= modified_contracts(self@));
        }
        found
    }

    /// Counts the changes that the fee has to cover.
    pub fn count_for_fee_charge(
        &self,
        sender_balance_key: Option<StorageKey>,
        fee_token_address: ContractAddress,
    ) -> (r: Option<StateChangesCount>)
        requires
            self.valid(),
        ensures
            r is Some <==> spec_count_for_fee_charge(self@, sender_balance_key, fee_token_address).0
                <= usize::MAX,
            r matches Some(count) ==> {
                let expected = spec_count_for_fee_charge(
                    self@,
                    sender_balance_key,
                    fee_token_address,
                );
                &&& count.n_storage_updates == expected.0
                &&& count.n_class_hash_updates == expected.1
                &&& count.n_compiled_class_hash_updates == expected.2
                &&& count.n_modified_contracts == expected.3
            },
    {
        let storage = self.count_kind(CellKind::Storage);
        let extra: usize = match sender_balance_key {
            Some(key) => if self.changes.contains_key(&CellKey::Storage(fee_token_address, key)) {
                0
            } else {
                1
            },
            None => 0,
        };
        let n_storage_updates = match storage.checked_add(extra) {
            Some(x) => x,
            None => { return None; },
        };
        let n_class_hash_updates = self.count_kind(CellKind::ClassHash);
        let n_compiled_class_hash_updates = self.count_kind(CellKind::CompiledClassHash);
        let contracts = self.get_modified_contracts();
        let mut n_modified_contracts: usize = contracts.len();
        let mut i: usize = 0;
        let mut has_fee_token = false;
        while i < contracts.len()
            invariant
                i <= contracts@.len(),
                has_fee_token <==> exists|m: int| 0 <= m < i && contracts@[m] == fee_token_address,
            decreases contracts@.len() - i,
        {
            if contracts[i] == fee_token_address {
                has_fee_token = true;
            }
            i += 1;
        }
        proof {
            contracts@.unique_seq_to_set();
            vstd::seq_lib::seq_to_set_is_finite(contracts@);
            if has_fee_token {
                assert(contracts@.contains(fee_token_address));
                assert(contracts@.to_set().contains(fee_token_address));
            } else {
                assert(!contracts@.to_set().contains(fee_token_address));
                assert(contracts@.to_set().remove(fee_token_address) =~= contracts@.to_set());
            }
        }
        if has_fee_token {
            n_modified_contracts = n_modified_contracts - 1;
        }
        Some(
            StateChangesCount {
                n_storage_updates,
                n_class_hash_updates,
                n_compiled_class_hash_updates,
                n_modified_contracts,
            },
        )
    }
}

} // verus!
