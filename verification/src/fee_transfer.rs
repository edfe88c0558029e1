//! Charging the fee: the sender's balance in the fee-token contract goes
//! down by the fee and the sequencer's goes up by it. With concurrency
//! enabled and a sender that is not the sequencer, the sequencer's balance
//! cells are neither read nor written; the fee is added to them later, in
//! submission order.

use vstd::prelude::*;
use crate::context::{BalanceKeys, TransactionContext};
use crate::felt::{pow2_128, ContractAddress, Felt};
use crate::gas::Fee;
use crate::state::{LayerView, LayeredState, StateReader};
use crate::state_laws::{ledger, stack_after_get, stack_after_set};
use crate::state_map::CellKey;

verus! {

/// A 256-bit balance as its two halves.
#[derive(Clone, Copy, Debug, PartialEq, Eq, Hash, Structural)]
pub struct Balance {
    pub low: u128,
    pub high: u128,
}

impl Balance {
    /// The amount the two halves stand for.
    pub open spec fn value(self) -> nat {
        (self.high as int * pow2_128() + self.low as int) as nat
    }

    /// The balance with `fee` taken off, unless the balance is smaller.
    pub open spec fn spec_debit(self, fee: Fee) -> Option<Balance> {
        if self.low >= fee {
            Some(Balance { low: (self.low - fee) as u128, high: self.high })
        } else if self.high > 0 {
            Some(
                Balance {
                    low: (self.low + pow2_128() - fee) as u128,
                    high: (self.high - 1) as u128,
                },
            )
        } else {
            None
        }
    }

    /// The balance with `fee` added, unless it would pass 256 bits.
    pub open spec fn spec_credit(self, fee: Fee) -> Option<Balance> {
        if self.low + fee < pow2_128() {
            Some(Balance { low: (self.low + fee) as u128, high: self.high })
        } else if self.high < u128::MAX {
            Some(
                Balance {
                    low: (self.low + fee - pow2_128()) as u128,
                    high: (self.high + 1) as u128,
                },
            )
        } else {
            None
        }
    }

    /// The balance with `fee` taken off, unless the balance is smaller.
    pub fn debit(&self, fee: Fee) -> (r: Option<Balance>)
        ensures
            r == self.spec_debit(fee),
    {
        if self.low >= fee {
            Some(Balance { low: self.low - fee, high: self.high })
        } else if self.high > 0 {
            // low < fee, so the difference wraps around to low + 2^128 - fee.
            let gap: u128 = fee - self.low;
            Some(Balance { low: u128::MAX - gap + 1, high: self.high - 1 })
        } else {
            None
        }
    }

    /// The balance with `fee` added, unless it would pass 256 bits.
    pub fn credit(&self, fee: Fee) -> (r: Option<Balance>)
        ensures
            r == self.spec_credit(fee),
    {
        match self.low.checked_add(fee) {
            Some(low) => Some(Balance { low, high: self.high }),
            None => {
                if self.high < u128::MAX {
                    let room: u128 = u128::MAX - self.low;
                    Some(Balance { low: fee - room - 1, high: self.high + 1 })
                } else {
                    None
                }
            },
        }
    }
}

/// Taking a fee off a balance succeeds exactly when the balance covers it,
/// and leaves the difference.
pub proof fn lemma_debit_value(balance: Balance, fee: Fee)
    ensures
        balance.spec_debit(fee) is Some <==> balance.value() >= fee,
        balance.spec_debit(fee) matches Some(rest) ==> rest.value() == balance.value() - fee,
{
    let p = pow2_128();
    assert((balance.high as int) * p >= 0) by (nonlinear_arith)
        requires
            p > 0,
            balance.high >= 0,
    ;
    if balance.low < fee && balance.high > 0 {
        assert((balance.high as int) * p == (balance.high as int - 1) * p + p) by (nonlinear_arith);
        assert((balance.high as int - 1) * p >= 0) by (nonlinear_arith)
            requires
                p > 0,
                balance.high >= 1,
        ;
    }
}

/// Adding a fee to a balance succeeds exactly when the sum fits in 256
/// bits, and leaves the sum.
pub proof fn lemma_credit_value(balance: Balance, fee: Fee)
    ensures
        balance.spec_credit(fee) is Some <==> balance.value() + fee < pow2_128() * pow2_128(),
        balance.spec_credit(fee) matches Some(sum) ==> sum.value() == balance.value() + fee,
{
    let p = pow2_128();
    assert((balance.high as int) * p >= 0) by (nonlinear_arith)
        requires
            p > 0,
            balance.high >= 0,
    ;
    assert((balance.high as int + 1) * p == (balance.high as int) * p + p) by (nonlinear_arith);
    if balance.high < u128::MAX {
        assert((balance.high as int + 1) * p <= (p - 1) * p) by (nonlinear_arith)
            requires
                balance.high as int + 1 <= p - 1,
                p > 0,
        ;
        assert((p - 1) * p == p * p - p) by (nonlinear_arith);
    } else {
        assert((balance.high as int) * p == p * p - p) by (nonlinear_arith)
            requires
                balance.high as int == p - 1,
        ;
    }
}

/// Why a fee could not be moved.
#[derive(Clone, Copy, Debug, PartialEq, Eq, Structural)]
pub enum FeeTransferError {
    /// The sender's and the sequencer's balance cells do not fit together.
    InconsistentBalanceKeys,
    /// A balance cell holds a value of more than 128 bits.
    MalformedBalance,
    /// The sender's balance does not cover the fee.
    InsufficientBalance { fee: Fee, balance_low: u128, balance_high: u128 },
    /// The sequencer's balance would pass 256 bits.
    BalanceOverflow,
}

/// The low balance cell of the given keys in the given token contract.
pub open spec fn low_cell(token: ContractAddress, keys: BalanceKeys) -> CellKey {
    CellKey::Storage(token, keys.low())
}

/// The high balance cell of the given keys in the given token contract.
pub open spec fn high_cell(token: ContractAddress, keys: BalanceKeys) -> CellKey {
    CellKey::Storage(token, keys.high())
}

/// The balance that the cells hold, if each half fits in 128 bits.
pub open spec fn spec_balance(cells: Map<CellKey, Felt>, token: ContractAddress, keys: BalanceKeys) -> Option<
    Balance,
> {
    let low = cells[low_cell(token, keys)];
    let high = cells[high_cell(token, keys)];
    if low.high == 0 && high.high == 0 {
        Some(Balance { low: low.low, high: high.low })
    } else {
        None
    }
}

/// The cells with the given balance written to its two cells.
pub open spec fn with_balance(
    cells: Map<CellKey, Felt>,
    token: ContractAddress,
    keys: BalanceKeys,
    balance: Balance,
) -> Map<CellKey, Felt> {
    cells.insert(low_cell(token, keys), Felt { high: 0, low: balance.low }).insert(
        high_cell(token, keys),
        Felt { high: 0, low: balance.high },
    )
}

/// The cells after `fee` was taken off the balance at `keys`.
pub open spec fn spec_debit_cells(
    cells: Map<CellKey, Felt>,
    token: ContractAddress,
    keys: BalanceKeys,
    fee: Fee,
) -> Result<Map<CellKey, Felt>, FeeTransferError> {
    match spec_balance(cells, token, keys) {
        None => Err(FeeTransferError::MalformedBalance),
        Some(balance) => match balance.spec_debit(fee) {
            None => Err(
                FeeTransferError::InsufficientBalance {
                    fee,
                    balance_low: balance.low,
                    balance_high: balance.high,
                },
            ),
            Some(rest) => Ok(with_balance(cells, token, keys, rest)),
        },
    }
}

/// The cells after `fee` was added to the balance at `keys`.
pub open spec fn spec_credit_cells(
    cells: Map<CellKey, Felt>,
    token: ContractAddress,
    keys: BalanceKeys,
    fee: Fee,
) -> Result<Map<CellKey, Felt>, FeeTransferError> {
    match spec_balance(cells, token, keys) {
        None => Err(FeeTransferError::MalformedBalance),
        Some(balance) => match balance.spec_credit(fee) {
            None => Err(FeeTransferError::BalanceOverflow),
            Some(sum) => Ok(with_balance(cells, token, keys, sum)),
        },
    }
}

/// The cells after a fee transfer that is carried out at once: the fee is
/// taken off the sender's balance and then added to the sequencer's.
pub open spec fn spec_sequential_transfer(
    cells: Map<CellKey, Felt>,
    token: ContractAddress,
    sender: BalanceKeys,
    sequencer: BalanceKeys,
    fee: Fee,
) -> Result<Map<CellKey, Felt>, FeeTransferError> {
    match spec_debit_cells(cells, token, sender, fee) {
        Err(e) => Err(e),
        Ok(debited) => spec_credit_cells(debited, token, sequencer, fee),
    }
}

/// Whether the sequencer's share of a transfer is put off: concurrency is
/// on and the sender is not the sequencer.
pub open spec fn spec_deferred(tx_context: TransactionContext, concurrency_mode: bool) -> bool {
    concurrency_mode && !tx_context.spec_is_sequencer_the_sender()
}

/// The cells after the fee transfer of a transaction: with the sequencer's
/// share put off only the sender's balance changes.
pub open spec fn spec_fee_transfer(
    cells: Map<CellKey, Felt>,
    tx_context: TransactionContext,
    fee: Fee,
    concurrency_mode: bool,
) -> Result<Map<CellKey, Felt>, FeeTransferError> {
    let token = tx_context.spec_fee_token_address();
    let sender = tx_context.sender_balance_keys;
    let sequencer = tx_context.block_context.block_info.sequencer_balance_keys;
    if !tx_context.spec_balance_keys_consistent() {
        Err(FeeTransferError::InconsistentBalanceKeys)
    } else if spec_deferred(tx_context, concurrency_mode) {
        spec_debit_cells(cells, token, sender, fee)
    } else {
        spec_sequential_transfer(cells, token, sender, sequencer, fee)
    }
}

/// Whether a layer has the cell among its first reads, and among its
/// writes, exactly when another layer has, and with the same value.
pub open spec fn knows_alike(before: LayerView, after: LayerView, key: CellKey) -> bool {
    &&& after.writes.contains_key(key) == before.writes.contains_key(key)
    &&& after.writes.contains_key(key) ==> after.writes[key] == before.writes[key]
    &&& after.initial_reads.contains_key(key) == before.initial_reads.contains_key(key)
    &&& after.initial_reads.contains_key(key) ==> after.initial_reads[key]
        == before.initial_reads[key]
}

/// Whether a layer holds, as its write to the cell, the value that the
/// cell has among the given cells.
pub open spec fn stands_written(layer: LayerView, cells: Map<CellKey, Felt>, key: CellKey) -> bool {
    layer.writes.contains_key(key) && layer.writes[key] == cells[key]
}

/// The stack after the balance at `keys` was read from its top: first
/// the low cell, then the high one.
pub open spec fn stack_after_balance_read(
    base: spec_fn(CellKey) -> Felt,
    layers: Seq<LayerView>,
    token: ContractAddress,
    keys: BalanceKeys,
) -> Seq<LayerView> {
    stack_after_get(
        base,
        stack_after_get(base, layers, low_cell(token, keys)),
        high_cell(token, keys),
    )
}

/// The stack after a balance was written to the cells at `keys` at its
/// top.
pub open spec fn stack_after_balance_write(
    layers: Seq<LayerView>,
    token: ContractAddress,
    keys: BalanceKeys,
    balance: Balance,
) -> Seq<LayerView> {
    stack_after_set(
        stack_after_set(layers, low_cell(token, keys), Felt { high: 0, low: balance.low }),
        high_cell(token, keys),
        Felt { high: 0, low: balance.high },
    )
}

/// The stack after the fee transfer of a transaction at its top. The
/// sender's balance is read first. Unless the sequencer's share is put
/// off, or the sender is the sequencer, the sequencer's balance is read
/// next. Only where both new balances can be had are they written, the
/// sender's first.
pub open spec fn stack_after_fee_transfer(
    base: spec_fn(CellKey) -> Felt,
    layers: Seq<LayerView>,
    tx_context: TransactionContext,
    fee: Fee,
    concurrency_mode: bool,
) -> Seq<LayerView> {
    let token = tx_context.spec_fee_token_address();
    let sender = tx_context.sender_balance_keys;
    let sequencer = tx_context.block_context.block_info.sequencer_balance_keys;
    let cells = ledger(base, layers);
    let read = stack_after_balance_read(base, layers, token, sender);
    if !tx_context.spec_balance_keys_consistent() {
        layers
    } else {
        match spec_debit_cells(cells, token, sender, fee) {
            Err(_) => read,
            Ok(_) => {
                let rest = spec_balance(cells, token, sender)->Some_0.spec_debit(fee)->Some_0;
                if spec_deferred(tx_context, concurrency_mode) {
                    stack_after_balance_write(read, token, sender, rest)
                } else if tx_context.spec_is_sequencer_the_sender() {
                    match rest.spec_credit(fee) {
                        None => read,
                        Some(sum) => stack_after_balance_write(
                            stack_after_balance_write(read, token, sender, rest),
                            token,
                            sequencer,
                            sum,
                        ),
                    }
                } else {
                    let both_read = stack_after_balance_read(base, read, token, sequencer);
                    match spec_credit_cells(cells, token, sequencer, fee) {
                        Err(_) => both_read,
                        Ok(_) => stack_after_balance_write(
                            stack_after_balance_write(both_read, token, sender, rest),
                            token,
                            sequencer,
                            spec_balance(cells, token, sequencer)->Some_0.spec_credit(fee)->Some_0,
                        ),
                    }
                }
            },
        }
    }
}

/// What a fee transfer did.
#[derive(Clone, Copy, Debug, PartialEq, Eq, Structural)]
pub struct FeeTransferInfo {
    /// The contract that holds the balances.
    pub fee_token_address: ContractAddress,
    pub sender_address: ContractAddress,
    pub sequencer_address: ContractAddress,
    pub amount: Fee,
    /// Whether the sequencer's balance was left for a later pass.
    pub sequencer_share_deferred: bool,
}

/// Reads the balance at `keys`; `None` when a cell holds more than 128
/// bits. The topmost layer records the two cells as read where it did not
/// know them.
pub fn read_balance<R: StateReader>(
    state: &mut LayeredState<R>,
    token: ContractAddress,
    keys: &BalanceKeys,
) -> (r: Option<Balance>)
    requires
        old(state).valid(),
    ensures
        final(state).valid(),
        final(state).spec_base() == old(state).spec_base(),
        old(state).consistent() ==> final(state).consistent(),
        final(state).spec_ledger() == old(state).spec_ledger(),
        r == spec_balance(old(state).spec_ledger(), token, *keys),
        final(state).spec_layers() == stack_after_balance_read(
            old(state).spec_base_fn(),
            old(state).spec_layers(),
            token,
            *keys,
        ),
        final(state).spec_layers().len() == old(state).spec_layers().len(),
        final(state).spec_layers().drop_last() == old(state).spec_layers().drop_last(),
        final(state).spec_net_writes() == old(state).spec_net_writes(),
        final(state).spec_top().writes == old(state).spec_top().writes,
        forall|k: CellKey| #[trigger]
            final(state).spec_top().initial_reads.contains_key(k) ==> {
                ||| old(state).spec_top().initial_reads.contains_key(k)
                ||| k == low_cell(token, *keys)
                ||| k == high_cell(token, *keys)
            },
        forall|k: CellKey| #[trigger]
            old(state).spec_top().initial_reads.contains_key(k) ==> final(state).spec_top().initial_reads.contains_key(k),
{
    proof {
        state.lemma_valid_has_layer();
    }
    let ghost layers0 = state.spec_layers();
    let low = state.get_storage_at(token, keys.low());
    let ghost layers1 = state.spec_layers();
    proof {
        state.lemma_valid_has_layer();
        assert(layers1.drop_last() =~= layers0.drop_last());
    }
    let high = state.get_storage_at(token, keys.high());
    proof {
        assert(state.spec_layers().drop_last() =~= layers1.drop_last());
    }
    if low.high == 0 && high.high == 0 {
        Some(Balance { low: low.low, high: high.low })
    } else {
        None
    }
}

/// Writes the balance at `keys` in the topmost layer.
pub fn write_balance<R: StateReader>(
    state: &mut LayeredState<R>,
    token: ContractAddress,
    keys: &BalanceKeys,
    balance: Balance,
)
    requires
        old(state).valid(),
    ensures
        final(state).valid(),
        final(state).spec_base() == old(state).spec_base(),
        old(state).consistent() ==> final(state).consistent(),
        final(state).spec_ledger() == with_balance(old(state).spec_ledger(), token, *keys, balance),
        final(state).spec_layers() == stack_after_balance_write(
            old(state).spec_layers(),
            token,
            *keys,
            balance,
        ),
        final(state).spec_layers().len() == old(state).spec_layers().len(),
        final(state).spec_layers().drop_last() == old(state).spec_layers().drop_last(),
        final(state).spec_top().initial_reads == old(state).spec_top().initial_reads,
        final(state).spec_top().writes == old(state).spec_top().writes.insert(
            low_cell(token, *keys),
            Felt { high: 0, low: balance.low },
        ).insert(high_cell(token, *keys), Felt { high: 0, low: balance.high }),
{
    proof {
        state.lemma_valid_has_layer();
    }
    let ghost layers0 = state.spec_layers();
    state.set_storage_at(token, keys.low(), Felt::from_u128(balance.low));
    let ghost layers1 = state.spec_layers();
    proof {
        state.lemma_valid_has_layer();
        assert(layers1.drop_last() =~= layers0.drop_last());
    }
    state.set_storage_at(token, keys.high(), Felt::from_u128(balance.high));
    proof {
        assert(state.spec_layers().drop_last() =~= layers1.drop_last());
    }
}

/// Moves the fee of a transaction. The fee is taken off the sender's
/// balance. Unless the sequencer's share is put off, it is then added to
/// the sequencer's balance, which is read and written at once. With the
/// share put off, the sequencer's balance cells are neither read nor
/// written. On a failure nothing is written.
pub fn execute_fee_transfer<R: StateReader>(
    state: &mut LayeredState<R>,
    tx_context: &TransactionContext,
    actual_fee: Fee,
    concurrency_mode: bool,
) -> (r: Result<FeeTransferInfo, FeeTransferError>)
    requires
        old(state).valid(),
    ensures
        final(state).valid(),
        final(state).spec_base() == old(state).spec_base(),
        old(state).consistent() ==> final(state).consistent(),
        final(state).spec_layers().len() == old(state).spec_layers().len(),
        final(state).spec_layers().drop_last() == old(state).spec_layers().drop_last(),
        final(state).spec_layers() == stack_after_fee_transfer(
            old(state).spec_base_fn(),
            old(state).spec_layers(),
            *tx_context,
            actual_fee,
            concurrency_mode,
        ),
        match spec_fee_transfer(old(state).spec_ledger(), *tx_context, actual_fee, concurrency_mode) {
            Ok(cells) => r is Ok && final(state).spec_ledger() == cells,
            Err(e) => {
                &&& r == Err::<FeeTransferInfo, FeeTransferError>(e)
                &&& final(state).spec_ledger() == old(state).spec_ledger()
                &&& final(state).spec_top().writes == old(state).spec_top().writes
            },
        },
        r matches Ok(info) ==> info == (FeeTransferInfo {
            fee_token_address: tx_context.spec_fee_token_address(),
            sender_address: tx_context.tx_info.spec_common_fields().sender_address,
            sequencer_address: tx_context.block_context.block_info.sequencer_address,
            amount: actual_fee,
            sequencer_share_deferred: spec_deferred(*tx_context, concurrency_mode),
        }),
        // With the share put off, the top layer learns nothing about the
        // sequencer's balance cells.
        r is Ok && spec_deferred(*tx_context, concurrency_mode) ==> {
            let token = tx_context.spec_fee_token_address();
            let sequencer = tx_context.block_context.block_info.sequencer_balance_keys;
            &&& knows_alike(
                old(state).spec_top(),
                final(state).spec_top(),
                low_cell(token, sequencer),
            )
            &&& knows_alike(
                old(state).spec_top(),
                final(state).spec_top(),
                high_cell(token, sequencer),
            )
        },
        // Otherwise the sequencer's new balance stands written in the top
        // layer.
        r is Ok && !spec_deferred(*tx_context, concurrency_mode) ==> {
            let token = tx_context.spec_fee_token_address();
            let sequencer = tx_context.block_context.block_info.sequencer_balance_keys;
            &&& stands_written(
                final(state).spec_top(),
                final(state).spec_ledger(),
                low_cell(token, sequencer),
            )
            &&& stands_written(
                final(state).spec_top(),
                final(state).spec_ledger(),
                high_cell(token, sequencer),
            )
        },
{
    proof {
        state.lemma_valid_has_layer();
    }
    if !tx_context.balance_keys_consistent() {
        return Err(FeeTransferError::InconsistentBalanceKeys);
    }
    let token = tx_context.fee_token_address();
    let sender = tx_context.sender_balance_keys;
    let sequencer = tx_context.block_context.block_info.sequencer_balance_keys;
    let deferred = concurrency_mode && !tx_context.is_sequencer_the_sender();
    let info = FeeTransferInfo {
        fee_token_address: token,
        sender_address: tx_context.tx_info.sender_address(),
        sequencer_address: tx_context.block_context.block_info.sequencer_address,
        amount: actual_fee,
        sequencer_share_deferred: deferred,
    };
    let ghost top0 = state.spec_top();
    let sender_balance = match read_balance(state, token, &sender) {
        Some(b) => b,
        None => {
            return Err(FeeTransferError::MalformedBalance);
        },
    };
    let rest = match sender_balance.debit(actual_fee) {
        Some(b) => b,
        None => {
            return Err(
                FeeTransferError::InsufficientBalance {
                    fee: actual_fee,
                    balance_low: sender_balance.low,
                    balance_high: sender_balance.high,
                },
            );
        },
    };
    if deferred {
        write_balance(state, token, &sender, rest);
        proof {
            assert(sender.spec_disjoint(sequencer));
        }
        return Ok(info);
    }
    // The sequencer's balance is read before anything is written, so that a
    // failure leaves the writes as they were. Where the sender is the
    // sequencer, it is the balance that the debit left.
    let sequencer_before = if tx_context.is_sequencer_the_sender() {
        Some(rest)
    } else {
        read_balance(state, token, &sequencer)
    };
    let sequencer_balance = match sequencer_before {
        Some(b) => b,
        None => {
            return Err(FeeTransferError::MalformedBalance);
        },
    };
    let sum = match sequencer_balance.credit(actual_fee) {
        Some(b) => b,
        None => {
            return Err(FeeTransferError::BalanceOverflow);
        },
    };
    let ghost cells0 = state.spec_ledger();
    write_balance(state, token, &sender, rest);
    let ghost cells1 = state.spec_ledger();
    write_balance(state, token, &sequencer, sum);
    proof {
        let debited = with_balance(cells0, token, sender, rest);
        assert(cells1 == debited);
        assert(spec_balance(debited, token, sequencer) == Some(sequencer_balance));
        assert(state.spec_ledger() == with_balance(debited, token, sequencer, sum));
    }
    Ok(info)
}

/// Adds a fee to the sequencer's balance: the pass that makes up, in
/// submission order, for the shares that were put off.
pub fn add_fee_to_sequencer_balance<R: StateReader>(
    state: &mut LayeredState<R>,
    token: ContractAddress,
    sequencer: &BalanceKeys,
    fee: Fee,
) -> (r: Result<(), FeeTransferError>)
    requires
        old(state).valid(),
    ensures
        final(state).valid(),
        final(state).spec_base() == old(state).spec_base(),
        old(state).consistent() ==> final(state).consistent(),
        final(state).spec_layers().len() == old(state).spec_layers().len(),
        final(state).spec_layers().drop_last() == old(state).spec_layers().drop_last(),
        match spec_credit_cells(old(state).spec_ledger(), token, *sequencer, fee) {
            Ok(cells) => {
                &&& r is Ok
                &&& final(state).spec_ledger() == cells
                &&& final(state).spec_layers() == stack_after_balance_write(
                    stack_after_balance_read(
                        old(state).spec_base_fn(),
                        old(state).spec_layers(),
                        token,
                        *sequencer,
                    ),
                    token,
                    *sequencer,
                    spec_balance(old(state).spec_ledger(), token, *sequencer)->Some_0.spec_credit(
                        fee,
                    )->Some_0,
                )
            },
            Err(e) => {
                &&& r == Err::<(), FeeTransferError>(e)
                &&& final(state).spec_ledger() == old(state).spec_ledger()
                &&& final(state).spec_top().writes == old(state).spec_top().writes
                &&& final(state).spec_layers() == stack_after_balance_read(
                    old(state).spec_base_fn(),
                    old(state).spec_layers(),
                    token,
                    *sequencer,
                )
            },
        },
{
    let balance = match read_balance(state, token, sequencer) {
        Some(b) => b,
        None => {
            return Err(FeeTransferError::MalformedBalance);
        },
    };
    let sum = match balance.credit(fee) {
        Some(b) => b,
        None => {
            return Err(FeeTransferError::BalanceOverflow);
        },
    };
    write_balance(state, token, sequencer, sum);
    Ok(())
}

} // verus!
