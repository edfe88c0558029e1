//! The immutable configuration of a block, and a transaction seen against
//! it.

use vstd::prelude::*;
use crate::felt::{ContractAddress, StorageKey};
use crate::fields::TransactionInfo;
use crate::gas::{Fee, FeeType, GasPriceVector, GasPrices, GasVector};
use crate::resources::GasCosts;

verus! {

/// The two storage cells that hold an account's fee-token balance: the low
/// and the high half of a 256-bit amount. The high cell is the one right
/// after the low cell.
#[derive(Clone, Copy, Debug)]
pub struct BalanceKeys {
    low: StorageKey,
    high: StorageKey,
}

impl BalanceKeys {
    #[verifier::type_invariant]
    spec fn adjacent(self) -> bool {
        self.high.value() == self.low.value() + 1
    }

    /// The cell of the low half.
    pub closed spec fn spec_low(&self) -> StorageKey {
        self.low
    }

    /// The cell of the high half.
    pub closed spec fn spec_high(&self) -> StorageKey {
        self.high
    }

    /// Whether the high cell is the one right after the low cell.
    pub open spec fn valid(self) -> bool {
        self.spec_high().value() == self.spec_low().value() + 1
    }

    /// The balance cells that start at `low`, unless `low` is the last key.
    pub fn new(low: StorageKey) -> (r: Option<BalanceKeys>)
        ensures
            r is Some <==> !(low.high == u128::MAX && low.low == u128::MAX),
            r matches Some(keys) ==> keys.spec_low() == low && keys.valid(),
    {
        match low.checked_next() {
            Some(high) => Some(BalanceKeys { low, high }),
            None => None,
        }
    }

    /// The cell of the low half.
    #[verifier::when_used_as_spec(spec_low)]
    pub fn low(&self) -> (r: StorageKey)
        ensures
            r == self.spec_low(),
    {
        self.low
    }

    /// The cell of the high half; it differs from the low cell.
    #[verifier::when_used_as_spec(spec_high)]
    pub fn high(&self) -> (r: StorageKey)
        ensures
            r == self.spec_high(),
            self.valid(),
            r != self.spec_low(),
    {
        proof {
            use_type_invariant(self);
        }
        self.high
    }

    /// Whether the two pairs name the same cells.
    pub fn same_cells(&self, other: &BalanceKeys) -> (r: bool)
        ensures
            r == (self.spec_low() == other.spec_low()),
            r ==> self.spec_high() == other.spec_high(),
            self.valid(),
            other.valid(),
    {
        proof {
            use_type_invariant(self);
            use_type_invariant(other);
            if self.low == other.low {
                crate::felt::lemma_value_injective(self.high, other.high);
            }
        }
        self.low == other.low
    }

    /// Whether the two pairs have no cell in common.
    pub open spec fn spec_disjoint(self, other: BalanceKeys) -> bool {
        &&& self.spec_low() != other.spec_low()
        &&& self.spec_low() != other.spec_high()
        &&& self.spec_high() != other.spec_low()
        &&& self.spec_high() != other.spec_high()
    }

    /// Whether the two pairs have no cell in common.
    pub fn disjoint(&self, other: &BalanceKeys) -> (r: bool)
        ensures
            r == self.spec_disjoint(*other),
            self.valid(),
            other.valid(),
    {
        proof {
            use_type_invariant(self);
            use_type_invariant(other);
        }
        self.low != other.low && self.low != other.high && self.high != other.low && self.high
            != other.high
    }
}

/// The addresses of the two fee-token contracts.
#[derive(Clone, Copy, Debug, PartialEq, Eq, Hash, Structural)]
pub struct FeeTokenAddresses {
    pub strk_fee_token_address: ContractAddress,
    pub eth_fee_token_address: ContractAddress,
}

/// What is fixed for the whole chain.
#[derive(Clone, Copy, Debug, PartialEq, Eq, Hash, Structural)]
pub struct ChainInfo {
    pub fee_token_addresses: FeeTokenAddresses,
}

impl ChainInfo {
    /// The contract that holds balances of the given currency.
    pub open spec fn spec_fee_token_address(self, fee_type: FeeType) -> ContractAddress {
        match fee_type {
            FeeType::Strk => self.fee_token_addresses.strk_fee_token_address,
            FeeType::Eth => self.fee_token_addresses.eth_fee_token_address,
        }
    }

    /// The contract that holds balances of the given currency.
    pub fn fee_token_address(&self, fee_type: FeeType) -> (r: ContractAddress)
        ensures
            r == self.spec_fee_token_address(fee_type),
    {
        match fee_type {
            FeeType::Strk => self.fee_token_addresses.strk_fee_token_address,
            FeeType::Eth => self.fee_token_addresses.eth_fee_token_address,
        }
    }
}

/// What is fixed for one block.
#[derive(Clone, Copy, Debug)]
pub struct BlockInfo {
    pub block_number: u64,
    pub sequencer_address: ContractAddress,
    /// The sequencer's balance cells inside a fee-token contract.
    pub sequencer_balance_keys: BalanceKeys,
    pub gas_prices: GasPrices,
    /// Whether state changes are published as blobs.
    pub use_kzg_da: bool,
}

impl BlockInfo {
    /// The fee of the given gas at the block's prices in the given
    /// currency; `None` when it does not fit in a fee.
    pub fn get_fee_by_gas_vector(&self, gas_vector: &GasVector, fee_type: FeeType) -> (r: Option<Fee>)
        ensures
            r is Some <==> gas_vector.spec_cost(self.gas_prices.spec_by_fee_type(fee_type))
                <= u128::MAX,
            r matches Some(fee) ==> fee == gas_vector.spec_cost(
                self.gas_prices.spec_by_fee_type(fee_type),
            ),
    {
        let prices = self.gas_prices.get_gas_prices_by_fee_type(fee_type);
        gas_vector.cost(&prices)
    }
}

/// The limits and costs that a protocol version fixes.
#[derive(Clone, Copy, Debug)]
pub struct VersionedConstants {
    /// The most steps the execute phase of a transaction may take.
    pub invoke_tx_max_n_steps: u32,
    /// The most steps the validate phase of a transaction may take.
    pub validate_max_n_steps: u32,
    /// The deepest a chain of nested calls may go.
    pub max_recursion_depth: usize,
    /// Whether a failure of the execute phase is charged for instead of
    /// rejecting the transaction.
    pub enable_reverts: bool,
    /// The gas a call is given once a chain of calls has entered a legacy
    /// contract.
    pub default_initial_gas_cost: u64,
    /// The steps that serving one system call takes on top of the steps of
    /// the call that makes it.
    pub os_steps_per_syscall: u32,
    pub gas_costs: GasCosts,
}

/// The per-block configuration that every transaction of the block sees.
#[derive(Clone, Copy, Debug)]
pub struct BlockContext {
    pub block_info: BlockInfo,
    pub chain_info: ChainInfo,
    pub versioned_constants: VersionedConstants,
}

/// A transaction together with the block it runs in.
#[derive(Clone, Copy, Debug)]
pub struct TransactionContext {
    pub block_context: BlockContext,
    pub tx_info: TransactionInfo,
    /// The sender's balance cells inside a fee-token contract.
    pub sender_balance_keys: BalanceKeys,
}

impl BlockContext {
    /// The context of a transaction with the given declared fields, whose
    /// sender keeps its balance in the given cells.
    pub fn to_tx_context(&self, tx_info: TransactionInfo, sender_balance_keys: BalanceKeys) -> (r:
        TransactionContext)
        ensures
            r.block_context == *self,
            r.tx_info == tx_info,
            r.sender_balance_keys == sender_balance_keys,
    {
        TransactionContext { block_context: *self, tx_info, sender_balance_keys }
    }
}

impl TransactionContext {
    /// Whether the transaction was sent by the block's sequencer.
    pub open spec fn spec_is_sequencer_the_sender(self) -> bool {
        self.tx_info.spec_common_fields().sender_address
            == self.block_context.block_info.sequencer_address
    }

    /// Whether the transaction was sent by the block's sequencer.
    pub fn is_sequencer_the_sender(&self) -> (r: bool)
        ensures
            r == self.spec_is_sequencer_the_sender(),
    {
        self.tx_info.sender_address() == self.block_context.block_info.sequencer_address
    }

    /// The block's prices in the currency the transaction pays in.
    pub open spec fn spec_gas_prices(self) -> GasPriceVector {
        self.block_context.block_info.gas_prices.spec_by_fee_type(self.tx_info.spec_fee_type())
    }

    /// The block's prices in the currency the transaction pays in.
    pub fn get_gas_prices(&self) -> (r: GasPriceVector)
        ensures
            r == self.spec_gas_prices(),
            r.valid(),
    {
        self.block_context.block_info.gas_prices.get_gas_prices_by_fee_type(self.tx_info.fee_type())
    }

    /// The contract that holds balances of the currency the transaction pays in.
    pub open spec fn spec_fee_token_address(self) -> ContractAddress {
        self.block_context.chain_info.spec_fee_token_address(self.tx_info.spec_fee_type())
    }

    /// The contract that holds balances of the currency the transaction
    /// pays in.
    pub fn fee_token_address(&self) -> (r: ContractAddress)
        ensures
            r == self.spec_fee_token_address(),
    {
        self.block_context.chain_info.fee_token_address(self.tx_info.fee_type())
    }

    /// The sender's and the sequencer's balance cells fit together: they
    /// are the same cells when the sequencer is the sender, and have no cell
    /// in common otherwise.
    pub open spec fn spec_balance_keys_consistent(self) -> bool {
        let sender = self.sender_balance_keys;
        let sequencer = self.block_context.block_info.sequencer_balance_keys;
        if self.spec_is_sequencer_the_sender() {
            sender.spec_low() == sequencer.spec_low() && sender.spec_high() == sequencer.spec_high()
        } else {
            sender.spec_disjoint(sequencer)
        }
    }

    /// Whether the sender's and the sequencer's balance cells fit together.
    pub fn balance_keys_consistent(&self) -> (r: bool)
        ensures
            r == self.spec_balance_keys_consistent(),
            self.sender_balance_keys.valid(),
            self.block_context.block_info.sequencer_balance_keys.valid(),
    {
        let sender = self.sender_balance_keys;
        let sequencer = self.block_context.block_info.sequencer_balance_keys;
        if self.is_sequencer_the_sender() {
            sender.same_cells(&sequencer)
        } else {
            sender.disjoint(&sequencer)
        }
    }
}

} // verus!
