//! The account transaction state machine: admission, validate, execute,
//! fee charge. The sender's code and the transaction's own logic run
//! outside; the machine says what to run next, takes what came of it, and
//! decides what is kept, what is rolled back and what is charged.

use vstd::prelude::*;
use vstd::string::*;
use crate::budget::{max_steps, saturate_u64, spec_max_steps, ExecutionMode};

use crate::context::{BalanceKeys, BlockContext, TransactionContext};
use crate::entry_point::CallInfo;
use crate::fee_checks::{check_actual_fee_in_bounds, spec_check_actual_fee_in_bounds, FeeBoundsError};
use crate::fee_transfer::{
    knows_alike,
    stands_written,
    high_cell,
    low_cell,
    spec_deferred,
    execute_fee_transfer,
    read_balance,
    spec_balance,
    spec_fee_transfer,
    stack_after_balance_read,
    stack_after_fee_transfer,
    Balance,
    FeeTransferError,
    FeeTransferInfo,
};
use crate::felt::{ClassHash, CompiledClassHash, ContractAddress, Felt};
use crate::fields::{TransactionInfo, TransactionVersion, ValidResourceBounds};
use crate::gas::{Fee, FeeType, Resource};
use crate::fee_checks::{resource_name, spec_resource_name};
use crate::text::{decimal, u128_to_decimal};
use crate::state::{visible, LayerView};
use crate::receipt::{
    charge,
    spec_charge,
    stack_after_charge,
    spec_balance_covers,
    spec_receipt,
    TransactionReceipt,
};
use crate::resources::{ComputationResources, ExecutionResources};
use crate::state::{LayerHandle, LayeredState, StateReader};
use crate::state_laws::{
    ledger,
    lemma_consistent_prefix,
    merged_stack,
    stack_after_get,
    stack_after_set,
    top_net_writes,
};
use crate::state_map::CellKey;

verus! {

/// What a transaction does once it is validated.
#[derive(Clone, Copy, Debug, PartialEq, Eq, Hash, Structural)]
pub enum TransactionKind {
    /// Calls an entry point of a contract.
    Invoke,
    /// Registers a class.
    Declare { class_hash: ClassHash, compiled_class_hash: CompiledClassHash },
    /// Deploys the sender's own account contract and runs its constructor.
    DeployAccount { contract_address: ContractAddress, class_hash: ClassHash },
}

/// A submitted account transaction.
#[derive(Clone, Copy, Debug)]
pub struct AccountTransaction {
    pub tx_info: TransactionInfo,
    pub kind: TransactionKind,
    /// The sender's balance cells inside a fee-token contract.
    pub sender_balance_keys: BalanceKeys,
}

impl AccountTransaction {
    /// The resolved view of the transaction.
    pub fn create_tx_info(&self) -> (r: TransactionInfo)
        ensures
            r == self.tx_info,
    {
        self.tx_info
    }

    /// The currency the transaction pays in.
    pub fn fee_type(&self) -> (r: FeeType)
        ensures
            r == self.tx_info.spec_fee_type(),
    {
        self.tx_info.fee_type()
    }

    /// The sender of the transaction.
    pub fn sender_address(&self) -> (r: ContractAddress)
        ensures
            r == self.tx_info.spec_common_fields().sender_address,
    {
        self.tx_info.sender_address()
    }
}

/// How a transaction is to be run.
#[derive(Clone, Copy, Debug, PartialEq, Eq, Hash, Structural)]
pub struct ExecutionFlags {
    /// Whether the fee is charged, and steps are limited by what the
    /// transaction pays for.
    pub charge_fee: bool,
    /// Whether the validate phase runs.
    pub validate: bool,
    /// Whether the sequencer's share of the fee transfer may be put off.
    pub concurrency_mode: bool,
}

/// What came of running one phase outside: the resources it consumed up to
/// its end or its failure, the calls it made, and the message of the
/// failure if it failed.
#[derive(Clone, Debug, PartialEq, Eq)]
pub struct PhaseOutcome {
    pub resources: ExecutionResources,
    /// How many system calls the phase made.
    pub n_syscalls: u64,
    pub gas_consumed: u64,
    pub failure: Option<String>,
    /// The calls of the phase, one inside the other as they were made.
    pub call_info: CallInfo,
}

impl PhaseOutcome {
    /// A phase that ran to its end.
    pub fn success(resources: ExecutionResources, gas_consumed: u64) -> (r: PhaseOutcome)
        ensures
            r.resources == resources,
            r.n_syscalls == 0,
            r.gas_consumed == gas_consumed,
            r.failure is None,
            r.call_info@.len() == 0,
    {
        PhaseOutcome {
            resources,
            n_syscalls: 0,
            gas_consumed,
            failure: None,
            call_info: CallInfo::empty(),
        }
    }

    /// A phase that failed with the given message.
    pub fn failed(resources: ExecutionResources, gas_consumed: u64, message: String) -> (r:
        PhaseOutcome)
        ensures
            r.resources == resources,
            r.n_syscalls == 0,
            r.gas_consumed == gas_consumed,
            r.failure == Some(message),
            r.call_info@.len() == 0,
    {
        PhaseOutcome {
            resources,
            n_syscalls: 0,
            gas_consumed,
            failure: Some(message),
            call_info: CallInfo::empty(),
        }
    }

    /// The same outcome with the given number of system calls.
    pub fn with_syscalls(self, n_syscalls: u64) -> (r: PhaseOutcome)
        ensures
            r == (PhaseOutcome { n_syscalls, ..self }),
    {
        PhaseOutcome {
            resources: self.resources,
            n_syscalls,
            gas_consumed: self.gas_consumed,
            failure: self.failure,
            call_info: self.call_info,
        }
    }
}

/// The resources a phase is charged for: what it counted, with the steps
/// that serving its system calls took added to its steps; the steps stop
/// at the largest number.
pub open spec fn spec_charged_resources(
    resources: ExecutionResources,
    n_syscalls: u64,
    os_steps_per_syscall: u32,
) -> ExecutionResources {
    ExecutionResources {
        n_steps: saturate_u64((resources.n_steps + n_syscalls * os_steps_per_syscall) as nat),
        ..resources
    }
}

/// The resources a phase is charged for.
pub fn charged_resources(resources: ExecutionResources, n_syscalls: u64, os_steps_per_syscall: u32) -> (r:
    ExecutionResources)
    ensures
        r == spec_charged_resources(resources, n_syscalls, os_steps_per_syscall),
{
    assert(n_syscalls * os_steps_per_syscall <= 0xffff_ffff_ffff_ffff * 0xffff_ffff)
        by (nonlinear_arith)
        requires
            n_syscalls <= 0xffff_ffff_ffff_ffff,
            os_steps_per_syscall <= 0xffff_ffff,
    ;
    assert(0 <= n_syscalls * os_steps_per_syscall) by (nonlinear_arith);
    let total: u128 = resources.n_steps as u128 + (n_syscalls as u128) * (os_steps_per_syscall as u128);
    let n_steps: u64 = if total > u64::MAX as u128 {
        u64::MAX
    } else {
        total as u64
    };
    ExecutionResources {
        n_steps,
        n_memory_holes: resources.n_memory_holes,
        builtin_instance_counter: resources.builtin_instance_counter,
    }
}

/// The resources that the given outcome is charged for in the given block.
pub open spec fn spec_outcome_resources(outcome: PhaseOutcome, tx_context: TransactionContext) -> ExecutionResources {
    spec_charged_resources(
        outcome.resources,
        outcome.n_syscalls,
        tx_context.block_context.versioned_constants.os_steps_per_syscall,
    )
}

/// Where a transaction stands.
#[derive(Clone, Copy, Debug, PartialEq, Eq, Hash, Structural)]
pub enum Phase {
    /// Admitted; the validate phase is to run.
    Received,
    /// Validated, or validation was skipped; the execute phase is to run.
    Validated,
    /// Executed; kept or rolled back, and the charge is decided.
    Executed,
    /// The fee was moved.
    FeeCharged,
    /// Done: the execute phase's changes are kept.
    Committed,
    /// Done: the execute phase's changes were rolled back; the fee was
    /// charged and the nonce stays raised.
    RevertedButCharged,
    /// Failed; nothing of the transaction is left in the state.
    Rejected,
}

/// What is to run next, outside.
#[derive(Clone, Copy, Debug, PartialEq, Eq, Structural)]
pub enum Action {
    /// Run the sender's validation within the given budget.
    RunValidate { max_steps: usize, initial_gas: u64 },
    /// Run the transaction's own logic within the given budget: the called
    /// entry point of an invoke, the constructor of a deploy-account,
    /// nothing for a declare.
    RunExecute { max_steps: usize, initial_gas: u64 },
}

/// Why a transaction was rejected. A rejected transaction leaves the state
/// as it was before it began.
#[derive(Clone, Debug, PartialEq, Eq)]
pub enum TransactionExecutionError {
    /// The sender's and the sequencer's balance cells do not fit together.
    InconsistentBalanceKeys,
    /// The declared version does not fit what the transaction declares.
    InvalidVersion,
    /// The transaction's nonce is not the account's.
    InvalidNonce { account_nonce: Felt, incoming_tx_nonce: Felt },
    /// The account's nonce is the largest word.
    NonceOverflow,
    /// The class is declared already.
    ClassAlreadyDeclared { class_hash: ClassHash },
    /// A bound's price is below the block's price on that axis.
    MaxGasPriceTooLow { resource: Resource, max_gas_price: u128, actual_gas_price: u128 },
    /// The sender's balance does not cover what the transaction may cost.
    BoundsExceedBalance { max_fee: Fee, balance_low: u128, balance_high: u128 },
    /// The validate phase failed.
    ValidateTransactionError { message: String },
    /// The execute phase failed and cannot be charged for.
    ExecutionError { message: String },
    /// An amount of gas or a fee does not fit its type.
    FeeComputationOverflow,
    /// The fee is above what the transaction allows.
    FeeBounds(FeeBoundsError),
    /// The fee could not be moved.
    FeeTransfer(FeeTransferError),
    /// The step does not fit the phase the transaction is in.
    OutOfPhase,
    /// The state's layers are not those the transaction left.
    LayerMismatch,
}

impl TransactionExecutionError {
    /// The message of the failure.
    pub open spec fn spec_message(self) -> Seq<char> {
        match self {
            TransactionExecutionError::InconsistentBalanceKeys =>
                "The balance cells of sender and sequencer do not fit together."@,
            TransactionExecutionError::InvalidVersion =>
                "The transaction version does not fit what the transaction declares."@,
            TransactionExecutionError::InvalidNonce { .. } => "Invalid transaction nonce."@,
            TransactionExecutionError::NonceOverflow => "The account nonce cannot be raised."@,
            TransactionExecutionError::ClassAlreadyDeclared { .. } =>
                "The class is already declared."@,
            TransactionExecutionError::MaxGasPriceTooLow {
                resource,
                max_gas_price,
                actual_gas_price,
            } => "Max "@ + spec_resource_name(resource) + " price ("@ + decimal(max_gas_price as nat)
                + ") is lower than the actual gas price: "@ + decimal(actual_gas_price as nat)
                + "."@,
            TransactionExecutionError::BoundsExceedBalance { max_fee, balance_low, balance_high } =>
                "Resources bounds ("@ + decimal(max_fee as nat) + ") exceed balance (low/high "@
                    + decimal(balance_low as nat) + "/"@ + decimal(balance_high as nat) + ")."@,
            TransactionExecutionError::ValidateTransactionError { message } =>
                "Transaction validation has failed:\n"@ + message@,
            TransactionExecutionError::ExecutionError { message } =>
                "Transaction execution has failed:\n"@ + message@,
            TransactionExecutionError::FeeComputationOverflow =>
                "An amount of gas or a fee does not fit its type."@,
            TransactionExecutionError::FeeBounds(e) => e.spec_message(),
            TransactionExecutionError::FeeTransfer(e) => "Fee transfer failed: "@
                + spec_fee_transfer_error_text(e),
            TransactionExecutionError::OutOfPhase =>
                "The step does not fit the phase the transaction is in."@,
            TransactionExecutionError::LayerMismatch =>
                "The layers of the state are not those the transaction left."@,
        }
    }

    /// The message of the failure.
    pub fn message(&self) -> (r: String)
        ensures
            r@ == self.spec_message(),
    {
        match self {
            TransactionExecutionError::InconsistentBalanceKeys => String::from_str(
                "The balance cells of sender and sequencer do not fit together.",
            ),
            TransactionExecutionError::InvalidVersion => String::from_str(
                "The transaction version does not fit what the transaction declares.",
            ),
            TransactionExecutionError::InvalidNonce { .. } => String::from_str(
                "Invalid transaction nonce.",
            ),
            TransactionExecutionError::NonceOverflow => String::from_str(
                "The account nonce cannot be raised.",
            ),
            TransactionExecutionError::ClassAlreadyDeclared { .. } => String::from_str(
                "The class is already declared.",
            ),
            TransactionExecutionError::MaxGasPriceTooLow {
                resource,
                max_gas_price,
                actual_gas_price,
            } => {
                let mut s = String::from_str("Max ");
                s.append(resource_name(*resource));
                s.append(" price (");
                s.append(u128_to_decimal(*max_gas_price).as_str());
                s.append(") is lower than the actual gas price: ");
                s.append(u128_to_decimal(*actual_gas_price).as_str());
                s.append(".");
                s
            },
            TransactionExecutionError::BoundsExceedBalance { max_fee, balance_low, balance_high } => {
                let mut s = String::from_str("Resources bounds (");
                s.append(u128_to_decimal(*max_fee).as_str());
                s.append(") exceed balance (low/high ");
                s.append(u128_to_decimal(*balance_low).as_str());
                s.append("/");
                s.append(u128_to_decimal(*balance_high).as_str());
                s.append(").");
                s
            },
            TransactionExecutionError::ValidateTransactionError { message } => {
                let mut s = String::from_str("Transaction validation has failed:\n");
                s.append(message.as_str());
                s
            },
            TransactionExecutionError::ExecutionError { message } => {
                let mut s = String::from_str("Transaction execution has failed:\n");
                s.append(message.as_str());
                s
            },
            TransactionExecutionError::FeeComputationOverflow => String::from_str(
                "An amount of gas or a fee does not fit its type.",
            ),
            TransactionExecutionError::FeeBounds(e) => e.message(),
            TransactionExecutionError::FeeTransfer(e) => {
                let mut s = String::from_str("Fee transfer failed: ");
                s.append(fee_transfer_error_text(*e));
                s
            },
            TransactionExecutionError::OutOfPhase => String::from_str(
                "The step does not fit the phase the transaction is in.",
            ),
            TransactionExecutionError::LayerMismatch => String::from_str(
                "The layers of the state are not those the transaction left.",
            ),
        }
    }
}

/// Why a fee could not be moved, in words.
pub open spec fn spec_fee_transfer_error_text(e: FeeTransferError) -> Seq<char> {
    match e {
        FeeTransferError::InconsistentBalanceKeys =>
            "the balance cells of sender and sequencer do not fit together."@,
        FeeTransferError::MalformedBalance => "a balance cell holds more than 128 bits."@,
        FeeTransferError::InsufficientBalance { .. } => "the balance does not cover the fee."@,
        FeeTransferError::BalanceOverflow => "the sequencer's balance would pass 256 bits."@,
    }
}

/// Why a fee could not be moved, in words.
pub fn fee_transfer_error_text(e: FeeTransferError) -> (r: &'static str)
    ensures
        r@ == spec_fee_transfer_error_text(e),
{
    match e {
        FeeTransferError::InconsistentBalanceKeys =>
            "the balance cells of sender and sequencer do not fit together.",
        FeeTransferError::MalformedBalance => "a balance cell holds more than 128 bits.",
        FeeTransferError::InsufficientBalance { .. } => "the balance does not cover the fee.",
        FeeTransferError::BalanceOverflow => "the sequencer's balance would pass 256 bits.",
    }
}

/// The final account of a transaction.
#[derive(Clone, Debug, PartialEq, Eq)]
pub struct TransactionExecutionInfo {
    pub validate_call_info: Option<PhaseOutcome>,
    pub execute_call_info: Option<PhaseOutcome>,
    pub fee_transfer_call_info: Option<FeeTransferInfo>,
    pub receipt: TransactionReceipt,
    /// Present exactly when the execute phase was rolled back.
    pub revert_error: Option<String>,
    /// `Committed` or `RevertedButCharged`.
    pub final_phase: Phase,
}

impl TransactionExecutionInfo {
    /// Whether the execute phase was rolled back.
    pub fn is_reverted(&self) -> (r: bool)
        ensures
            r == (self.revert_error is Some),
    {
        self.revert_error.is_some()
    }
}

/// Whether a failure of the execute phase is charged for instead of
/// rejecting the transaction: the block enables reverts, and the
/// transaction is an invoke or a declare of version one or later. An
/// account comes into being with its constructor; a deploy-account whose
/// constructor fails is rejected as if its validation had failed, and
/// leaves no trace.
pub open spec fn spec_is_revertible(tx_context: TransactionContext, kind: TransactionKind) -> bool {
    &&& tx_context.block_context.versioned_constants.enable_reverts
    &&& tx_context.tx_info.spec_common_fields().version != TransactionVersion::Zero
    &&& !(kind is DeployAccount)
}

/// The gas a transaction's first call is given: its bound on L2 gas where
/// it bounds all axes and the fee is enforced, else the block's default, so
/// that a transaction whose fee is not enforced runs without a ceiling
/// that is tied to payment.
pub open spec fn spec_initial_gas(tx_context: TransactionContext) -> u64 {
    match tx_context.tx_info {
        TransactionInfo::Current(info) => match info.resource_bounds {
            ValidResourceBounds::AllResources(all) => if tx_context.tx_info.spec_enforce_fee() {
                all.l2_gas.max_amount
            } else {
                tx_context.block_context.versioned_constants.default_initial_gas_cost
            },
            ValidResourceBounds::L1Gas(_) =>
                tx_context.block_context.versioned_constants.default_initial_gas_cost,
        },
        TransactionInfo::Deprecated(_) =>
            tx_context.block_context.versioned_constants.default_initial_gas_cost,
    }
}

/// The gas a transaction's first call is given.
pub fn initial_gas(tx_context: &TransactionContext) -> (r: u64)
    ensures
        r == spec_initial_gas(*tx_context),
{
    match tx_context.tx_info {
        TransactionInfo::Current(info) => match info.resource_bounds {
            ValidResourceBounds::AllResources(all) => if tx_context.tx_info.enforce_fee() {
                all.l2_gas.max_amount
            } else {
                tx_context.block_context.versioned_constants.default_initial_gas_cost
            },
            ValidResourceBounds::L1Gas(_) =>
                tx_context.block_context.versioned_constants.default_initial_gas_cost,
        },
        TransactionInfo::Deprecated(_) =>
            tx_context.block_context.versioned_constants.default_initial_gas_cost,
    }
}

/// The first price bound that is below the block's price, if there is one:
/// L1 gas first, then L2 gas, then L1 data gas.
pub open spec fn spec_price_too_low(tx_context: TransactionContext) -> Option<
    TransactionExecutionError,
> {
    let prices = tx_context.spec_gas_prices();
    match tx_context.tx_info {
        TransactionInfo::Deprecated(_) => None,
        TransactionInfo::Current(info) => match info.resource_bounds {
            ValidResourceBounds::L1Gas(l1) => if l1.max_price_per_unit < prices.l1_gas_price.get() {
                Some(
                    TransactionExecutionError::MaxGasPriceTooLow {
                        resource: Resource::L1Gas,
                        max_gas_price: l1.max_price_per_unit,
                        actual_gas_price: prices.l1_gas_price.get(),
                    },
                )
            } else {
                None
            },
            ValidResourceBounds::AllResources(all) => if all.l1_gas.max_price_per_unit
                < prices.l1_gas_price.get() {
                Some(
                    TransactionExecutionError::MaxGasPriceTooLow {
                        resource: Resource::L1Gas,
                        max_gas_price: all.l1_gas.max_price_per_unit,
                        actual_gas_price: prices.l1_gas_price.get(),
                    },
                )
            } else if all.l2_gas.max_price_per_unit < prices.l2_gas_price.get() {
                Some(
                    TransactionExecutionError::MaxGasPriceTooLow {
                        resource: Resource::L2Gas,
                        max_gas_price: all.l2_gas.max_price_per_unit,
                        actual_gas_price: prices.l2_gas_price.get(),
                    },
                )
            } else if all.l1_data_gas.max_price_per_unit < prices.l1_data_gas_price.get() {
                Some(
                    TransactionExecutionError::MaxGasPriceTooLow {
                        resource: Resource::L1DataGas,
                        max_gas_price: all.l1_data_gas.max_price_per_unit,
                        actual_gas_price: prices.l1_data_gas_price.get(),
                    },
                )
            } else {
                None
            },
        },
    }
}

fn price_too_low(tx_context: &TransactionContext) -> (r: Option<TransactionExecutionError>)
    ensures
        r == spec_price_too_low(*tx_context),
{
    let prices = tx_context.get_gas_prices();
    match tx_context.tx_info {
        TransactionInfo::Deprecated(_) => None,
        TransactionInfo::Current(info) => match info.resource_bounds {
            ValidResourceBounds::L1Gas(l1) => if l1.max_price_per_unit < prices.l1_gas_price.get() {
                Some(
                    TransactionExecutionError::MaxGasPriceTooLow {
                        resource: Resource::L1Gas,
                        max_gas_price: l1.max_price_per_unit,
                        actual_gas_price: prices.l1_gas_price.get(),
                    },
                )
            } else {
                None
            },
            ValidResourceBounds::AllResources(all) => if all.l1_gas.max_price_per_unit
                < prices.l1_gas_price.get() {
                Some(
                    TransactionExecutionError::MaxGasPriceTooLow {
                        resource: Resource::L1Gas,
                        max_gas_price: all.l1_gas.max_price_per_unit,
                        actual_gas_price: prices.l1_gas_price.get(),
                    },
                )
            } else if all.l2_gas.max_price_per_unit < prices.l2_gas_price.get() {
                Some(
                    TransactionExecutionError::MaxGasPriceTooLow {
                        resource: Resource::L2Gas,
                        max_gas_price: all.l2_gas.max_price_per_unit,
                        actual_gas_price: prices.l2_gas_price.get(),
                    },
                )
            } else if all.l1_data_gas.max_price_per_unit < prices.l1_data_gas_price.get() {
                Some(
                    TransactionExecutionError::MaxGasPriceTooLow {
                        resource: Resource::L1DataGas,
                        max_gas_price: all.l1_data_gas.max_price_per_unit,
                        actual_gas_price: prices.l1_data_gas_price.get(),
                    },
                )
            } else {
                None
            },
        },
    }
}

/// Whether the declared version fits what the transaction declares:
/// resource bounds go with version three, a maximal fee with the others.
pub open spec fn spec_version_fits(tx_info: TransactionInfo) -> bool {
    (tx_info is Current) == (tx_info.spec_common_fields().version == TransactionVersion::Three)
}

/// The admission of a transaction against the state it meets: `Ok`, or
/// the first reason to reject it. In order: the balance cells fit
/// together; the version fits; unless the version is zero, the nonce is
/// the account's and can be raised; a declare of version two or later
/// names a class that is not declared yet; and, where the fee is charged
/// and enforced, no price bound is below the block's price and the
/// sender's balance covers what the transaction may cost.
pub open spec fn spec_admission(
    cells: Map<CellKey, Felt>,
    tx_context: TransactionContext,
    kind: TransactionKind,
    flags: ExecutionFlags,
) -> Result<(), TransactionExecutionError> {
    let fields = tx_context.tx_info.spec_common_fields();
    let account_nonce = cells[CellKey::Nonce(fields.sender_address)];
    if !tx_context.spec_balance_keys_consistent() {
        Err(TransactionExecutionError::InconsistentBalanceKeys)
    } else if !spec_version_fits(tx_context.tx_info) {
        Err(TransactionExecutionError::InvalidVersion)
    } else if fields.version != TransactionVersion::Zero && account_nonce != fields.nonce {
        Err(
            TransactionExecutionError::InvalidNonce {
                account_nonce,
                incoming_tx_nonce: fields.nonce,
            },
        )
    } else if fields.version != TransactionVersion::Zero && account_nonce.spec_checked_next()
        is None {
        Err(TransactionExecutionError::NonceOverflow)
    } else if (kind matches TransactionKind::Declare { class_hash, .. } && fields.version.spec_number()
        >= 2 && cells[CellKey::Declared(class_hash)] != Felt { high: 0, low: 0 }) {
        Err(TransactionExecutionError::ClassAlreadyDeclared { class_hash: kind->Declare_class_hash })
    } else if flags.charge_fee && tx_context.tx_info.spec_enforce_fee() {
        match spec_price_too_low(tx_context) {
            Some(e) => Err(e),
            None => {
                let balance = match spec_balance(
                    cells,
                    tx_context.spec_fee_token_address(),
                    tx_context.sender_balance_keys,
                ) {
                    Some(b) => b,
                    None => Balance { low: 0, high: 0 },
                };
                if spec_balance_covers(balance, tx_context.tx_info.spec_max_fee()) {
                    Ok(())
                } else {
                    Err(
                        TransactionExecutionError::BoundsExceedBalance {
                            max_fee: tx_context.tx_info.spec_max_fee(),
                            balance_low: balance.low,
                            balance_high: balance.high,
                        },
                    )
                }
            },
        }
    } else {
        Ok(())
    }
}

/// The cells once a transaction is admitted: unless its version is zero,
/// the sender's nonce is raised by one.
pub open spec fn spec_cells_after_admission(cells: Map<CellKey, Felt>, tx_context: TransactionContext) -> Map<
    CellKey,
    Felt,
> {
    let fields = tx_context.tx_info.spec_common_fields();
    if fields.version != TransactionVersion::Zero {
        cells.insert(
            CellKey::Nonce(fields.sender_address),
            cells[CellKey::Nonce(fields.sender_address)].spec_checked_next()->Some_0,
        )
    } else {
        cells
    }
}

/// The cells once the execute phase is opened: a deploy-account has the
/// class hash of its contract set.
pub open spec fn spec_cells_at_execute(cells: Map<CellKey, Felt>, kind: TransactionKind) -> Map<
    CellKey,
    Felt,
> {
    match kind {
        TransactionKind::DeployAccount { contract_address, class_hash } => cells.insert(
            CellKey::ClassHash(contract_address),
            class_hash,
        ),
        _ => cells,
    }
}

/// The cells once the execute phase ran to its end: a declare has its
/// class marked as declared and its compiled class hash set.
pub open spec fn spec_cells_after_execute(cells: Map<CellKey, Felt>, kind: TransactionKind) -> Map<
    CellKey,
    Felt,
> {
    match kind {
        TransactionKind::Declare { class_hash, compiled_class_hash } => cells.insert(
            CellKey::Declared(class_hash),
            Felt { high: 0, low: 1 },
        ).insert(CellKey::CompiledClassHash(class_hash), compiled_class_hash),
        _ => cells,
    }
}

/// The budget of the validate phase.
pub open spec fn spec_validate_action(tx_context: TransactionContext, flags: ExecutionFlags) -> Action {
    Action::RunValidate {
        max_steps: spec_max_steps(tx_context, ExecutionMode::Validate, flags.charge_fee),
        initial_gas: spec_initial_gas(tx_context),
    }
}

/// The budget of the execute phase: the gas that the validate phase left.
pub open spec fn spec_execute_action(
    tx_context: TransactionContext,
    flags: ExecutionFlags,
    gas_consumed_by_validate: u64,
) -> Action {
    Action::RunExecute {
        max_steps: spec_max_steps(tx_context, ExecutionMode::Execute, flags.charge_fee),
        initial_gas: if spec_initial_gas(tx_context) >= gas_consumed_by_validate {
            (spec_initial_gas(tx_context) - gas_consumed_by_validate) as u64
        } else {
            0
        },
    }
}

fn execute_action(tx_context: &TransactionContext, flags: ExecutionFlags, gas_consumed_by_validate: u64) -> (r:
    Action)
    ensures
        r == spec_execute_action(*tx_context, flags, gas_consumed_by_validate),
{
    let gas = initial_gas(tx_context);
    Action::RunExecute {
        max_steps: max_steps(tx_context, ExecutionMode::Execute, flags.charge_fee),
        initial_gas: if gas >= gas_consumed_by_validate {
            gas - gas_consumed_by_validate
        } else {
            0
        },
    }
}

/// What is decided once the execute phase has run.
pub enum ExecuteVerdict {
    /// The transaction is rejected.
    Rejected(TransactionExecutionError),
    /// The execute phase's changes are kept, at the given charge.
    Kept(TransactionReceipt),
    /// The execute phase's changes are rolled back, at the given charge and
    /// with the given message.
    Reverted(TransactionReceipt, Seq<char>),
}

/// The stack once the execute phase ran to its end: a declare has written
/// that its class is declared, and the compiled class hash.
pub open spec fn stack_after_execute(layers: Seq<LayerView>, kind: TransactionKind) -> Seq<LayerView> {
    match kind {
        TransactionKind::Declare { class_hash, compiled_class_hash } => stack_after_set(
            stack_after_set(layers, CellKey::Declared(class_hash), Felt { high: 0, low: 1 }),
            CellKey::CompiledClassHash(class_hash),
            compiled_class_hash,
        ),
        _ => layers,
    }
}

/// What is charged for where the execute phase is kept: the resources of
/// both phases.
pub open spec fn spec_kept_computation(
    validate_resources: ExecutionResources,
    outcome: PhaseOutcome,
    tx_context: TransactionContext,
) -> ComputationResources {
    ComputationResources {
        vm_resources: validate_resources.spec_add(spec_outcome_resources(outcome, tx_context)),
        n_reverted_steps: 0,
    }
}

/// What is charged for where the execute phase is rolled back: the
/// resources of the validate phase, and the steps of the execute phase as
/// reverted steps.
pub open spec fn spec_reverted_computation(
    validate_resources: ExecutionResources,
    outcome: PhaseOutcome,
    tx_context: TransactionContext,
) -> ComputationResources {
    ComputationResources {
        vm_resources: validate_resources,
        n_reverted_steps: spec_outcome_resources(outcome, tx_context).n_steps,
    }
}

/// The charge of a transaction whose execute phase is rolled back. The
/// stack is the one without the execute phase's layer. The resources are
/// those of the validate phase, with the steps of the execute phase added
/// as reverted steps. The fee is the given one, else the one that the check
/// after execution recommends.
pub open spec fn spec_revert_verdict(
    base: spec_fn(CellKey) -> Felt,
    kept: Seq<LayerView>,
    tx_context: TransactionContext,
    flags: ExecutionFlags,
    validate_resources: ExecutionResources,
    outcome: PhaseOutcome,
    fee: Option<Fee>,
    message: Seq<char>,
) -> ExecuteVerdict {
    let computation = spec_reverted_computation(validate_resources, outcome, tx_context);
    match spec_charge(
        top_net_writes(base, kept),
        ledger(base, kept),
        tx_context,
        computation,
        flags.charge_fee,
    ) {
        None => ExecuteVerdict::Rejected(TransactionExecutionError::FeeComputationOverflow),
        Some((receipt, report)) => ExecuteVerdict::Reverted(
            TransactionReceipt {
                fee: match fee {
                    Some(f) => f,
                    None => report.recommended_fee,
                },
                gas: receipt.gas,
                da_gas: receipt.da_gas,
                resources: receipt.resources,
            },
            message,
        ),
    }
}

/// What is decided once the execute phase has run, the stack having the
/// execute phase's layer on top of the transaction's own. A failure of the
/// phase rejects the transaction where it cannot be reverted, and is rolled
/// back and charged for where it can. After a success the charge is worked
/// out as if the phase's changes were kept; where the check after execution
/// fails, the changes are rolled back all the same, and the fee snaps to
/// what the check recommends.
pub open spec fn spec_execute_verdict(
    base: spec_fn(CellKey) -> Felt,
    layers: Seq<LayerView>,
    tx_context: TransactionContext,
    kind: TransactionKind,
    flags: ExecutionFlags,
    validate_resources: ExecutionResources,
    outcome: PhaseOutcome,
) -> ExecuteVerdict {
    let kept = layers.drop_last();
    match outcome.failure {
        Some(message) => if !spec_is_revertible(tx_context, kind) {
            ExecuteVerdict::Rejected(TransactionExecutionError::ExecutionError { message })
        } else {
            spec_revert_verdict(
                base,
                kept,
                tx_context,
                flags,
                validate_resources,
                outcome,
                None,
                message@,
            )
        },
        None => if !validate_resources.spec_add_fits(spec_outcome_resources(outcome, tx_context)) {
            ExecuteVerdict::Rejected(TransactionExecutionError::FeeComputationOverflow)
        } else {
            let merged = merged_stack(stack_after_execute(layers, kind));
            let computation = spec_kept_computation(validate_resources, outcome, tx_context);
            match spec_charge(
                top_net_writes(base, merged),
                ledger(base, merged),
                tx_context,
                computation,
                flags.charge_fee,
            ) {
                None => ExecuteVerdict::Rejected(TransactionExecutionError::FeeComputationOverflow),
                Some((receipt, report)) => match report.error {
                    None => ExecuteVerdict::Kept(receipt),
                    Some(e) => spec_revert_verdict(
                        base,
                        kept,
                        tx_context,
                        flags,
                        validate_resources,
                        outcome,
                        Some(report.recommended_fee),
                        e.spec_message(),
                    ),
                },
            }
        },
    }
}

/// The record of the fee transfer of a finished transaction: none without
/// a charge or with a fee of zero; else the contract that holds the
/// balances, who pays and who is paid, the fee, and whether the
/// sequencer's share is put off.
pub open spec fn spec_fee_transfer_record(
    tx_context: TransactionContext,
    flags: ExecutionFlags,
    fee: Fee,
) -> Option<FeeTransferInfo> {
    if !flags.charge_fee || fee == 0 {
        None
    } else {
        Some(
            FeeTransferInfo {
                fee_token_address: tx_context.spec_fee_token_address(),
                sender_address: tx_context.tx_info.spec_common_fields().sender_address,
                sequencer_address: tx_context.block_context.block_info.sequencer_address,
                amount: fee,
                sequencer_share_deferred: spec_deferred(tx_context, flags.concurrency_mode),
            },
        )
    }
}

/// The cells after the fee of a finished transaction was charged, or why
/// the transaction is rejected after all. Nothing is moved without a
/// charge or with a fee of zero. With enforcement a fee above what the
/// transaction allows is refused.
pub open spec fn spec_fee_step(
    cells: Map<CellKey, Felt>,
    tx_context: TransactionContext,
    flags: ExecutionFlags,
    fee: Fee,
) -> Result<Map<CellKey, Felt>, TransactionExecutionError> {
    if !flags.charge_fee || fee == 0 {
        Ok(cells)
    } else if tx_context.tx_info.spec_enforce_fee() && spec_check_actual_fee_in_bounds(
        tx_context.tx_info,
        fee,
    ) is Err {
        Err(
            TransactionExecutionError::FeeBounds(
                spec_check_actual_fee_in_bounds(tx_context.tx_info, fee)->Err_0,
            ),
        )
    } else {
        match spec_fee_transfer(cells, tx_context, fee, flags.concurrency_mode) {
            Err(e) => Err(TransactionExecutionError::FeeTransfer(e)),
            Ok(after) => Ok(after),
        }
    }
}

/// The stack once the execute phase is opened at its top: a
/// deploy-account has the class hash of its contract written.
pub open spec fn stack_at_execute(layers: Seq<LayerView>, kind: TransactionKind) -> Seq<LayerView> {
    match kind {
        TransactionKind::DeployAccount { contract_address, class_hash } => stack_after_set(
            layers,
            CellKey::ClassHash(contract_address),
            class_hash,
        ),
        _ => layers,
    }
}

/// The stack with the transaction's own layer on top, as admission leaves
/// it. Unless the version is zero, the layer has read the sender's nonce
/// and written the next one. For a declare of version two or later it has
/// read whether the class is declared. Where the fee is charged and
/// enforced, it has read the sender's balance. It holds nothing else.
pub open spec fn stack_with_own_layer(
    base: spec_fn(CellKey) -> Felt,
    layers: Seq<LayerView>,
    tx_context: TransactionContext,
    kind: TransactionKind,
    flags: ExecutionFlags,
) -> Seq<LayerView> {
    let fields = tx_context.tx_info.spec_common_fields();
    let nonce = CellKey::Nonce(fields.sender_address);
    let opened = layers.push(LayerView::empty());
    let raised = if fields.version != TransactionVersion::Zero {
        stack_after_set(
            stack_after_get(base, opened, nonce),
            nonce,
            visible(base, layers, nonce).spec_checked_next()->Some_0,
        )
    } else {
        opened
    };
    let looked_up = if kind matches TransactionKind::Declare { class_hash, .. }
        && fields.version.spec_number() >= 2 {
        stack_after_get(base, raised, CellKey::Declared(kind->Declare_class_hash))
    } else {
        raised
    };
    if flags.charge_fee && tx_context.tx_info.spec_enforce_fee() {
        stack_after_balance_read(
            base,
            looked_up,
            tx_context.spec_fee_token_address(),
            tx_context.sender_balance_keys,
        )
    } else {
        looked_up
    }
}

/// The stack as admission leaves it: the transaction's own layer, and
/// above it the empty layer of the phase that is to run. Where validation
/// is skipped, that is the execute phase.
pub open spec fn stack_after_admission(
    base: spec_fn(CellKey) -> Felt,
    layers: Seq<LayerView>,
    tx_context: TransactionContext,
    kind: TransactionKind,
    flags: ExecutionFlags,
) -> Seq<LayerView> {
    let phase = stack_with_own_layer(base, layers, tx_context, kind, flags).push(LayerView::empty());
    if flags.validate {
        phase
    } else {
        stack_at_execute(phase, kind)
    }
}

/// The stack once the validate phase ran to its end: the phase's layer is
/// merged into the transaction's own, and the empty layer of the execute
/// phase is opened above it.
pub open spec fn stack_after_validation(layers: Seq<LayerView>, kind: TransactionKind) -> Seq<
    LayerView,
> {
    stack_at_execute(merged_stack(layers).push(LayerView::empty()), kind)
}

/// The stack after the fee of a finished transaction was charged at its
/// top: untouched without a charge or with a fee of zero.
pub open spec fn stack_after_fee_step(
    base: spec_fn(CellKey) -> Felt,
    layers: Seq<LayerView>,
    tx_context: TransactionContext,
    flags: ExecutionFlags,
    fee: Fee,
) -> Seq<LayerView> {
    if !flags.charge_fee || fee == 0 {
        layers
    } else {
        stack_after_fee_transfer(base, layers, tx_context, fee, flags.concurrency_mode)
    }
}

/// What admission leaves on success: the transaction's own layer stands
/// right above the layers that were there, the layer of the first phase
/// stands above it, and the layers that were there are untouched.
pub open spec fn admitted(before: Seq<LayerView>, after: Seq<LayerView>, outer: LayerHandle) -> bool {
    &&& outer.depth == before.len()
    &&& after.len() == before.len() + 2
    &&& after.take(before.len() as int) == before
}

/// What a phase that runs outside may do to the layers: whatever it likes
/// to the transaction's layers, nothing to the layers below them.
pub open spec fn ran_above(outer: LayerHandle, before: Seq<LayerView>, after: Seq<LayerView>) -> bool {
    &&& after.len() == before.len()
    &&& after.take(outer.depth as int) == before.take(outer.depth as int)
}

/// What a rejection leaves: the layers below the transaction's own, and
/// nothing else.
pub open spec fn rejected(outer: LayerHandle, before: Seq<LayerView>, after: Seq<LayerView>) -> bool {
    after == before.take(outer.depth as int)
}

/// Whether the state has the transaction's own layer, above the bottom
/// one, and `extra` layers on top of what was there before it.
pub open spec fn spec_layers_fit(depth: nat, outer: LayerHandle, extra: nat) -> bool {
    outer.depth >= 1 && depth == outer.depth + extra
}

/// A transaction on its way through the phases.
#[derive(Debug)]
pub struct TransactionExecution {
    tx_context: TransactionContext,
    kind: TransactionKind,
    flags: ExecutionFlags,
    phase: Phase,
    outer: LayerHandle,
    validate_resources: ExecutionResources,
    validate_outcome: Option<PhaseOutcome>,
    execute_outcome: Option<PhaseOutcome>,
    receipt: Option<TransactionReceipt>,
    revert_error: Option<String>,
}

impl TransactionExecution {
    /// The transaction seen against its block.
    pub closed spec fn spec_tx_context(&self) -> TransactionContext {
        self.tx_context
    }

    /// What the transaction does once it is validated.
    pub closed spec fn spec_kind(&self) -> TransactionKind {
        self.kind
    }

    /// How the transaction is run.
    pub closed spec fn spec_flags(&self) -> ExecutionFlags {
        self.flags
    }

    /// The phase the transaction is in.
    pub closed spec fn spec_phase(&self) -> Phase {
        self.phase
    }

    /// The transaction's own layer; the layers below it are not the
    /// transaction's.
    pub closed spec fn spec_outer(&self) -> LayerHandle {
        self.outer
    }

    /// The resources of the validate phase; none before it ran, or where
    /// it is skipped.
    pub closed spec fn spec_validate_resources(&self) -> ExecutionResources {
        self.validate_resources
    }

    /// What came of the validate phase, once it ran to its end.
    pub closed spec fn spec_validate_outcome(&self) -> Option<PhaseOutcome> {
        self.validate_outcome
    }

    /// What came of the execute phase, once it ran.
    pub closed spec fn spec_execute_outcome(&self) -> Option<PhaseOutcome> {
        self.execute_outcome
    }

    /// The charge, once the execute phase ran.
    pub closed spec fn spec_receipt(&self) -> Option<TransactionReceipt> {
        self.receipt
    }

    /// Why the execute phase was rolled back, if it was.
    pub closed spec fn spec_revert_error(&self) -> Option<String> {
        self.revert_error
    }

    /// The phase the transaction is in.
    pub fn phase(&self) -> (r: Phase)
        ensures
            r == self.spec_phase(),
    {
        self.phase
    }

    /// The handle of the transaction's own layer.
    pub fn layer(&self) -> (r: LayerHandle)
        ensures
            r == self.spec_outer(),
    {
        self.outer
    }

    /// The transaction seen against its block.
    pub fn tx_context(&self) -> (r: TransactionContext)
        ensures
            r == self.spec_tx_context(),
    {
        self.tx_context
    }

    /// Admits a transaction. On success the state has two more layers, the
    /// transaction's own and one for the phase that is to run, the
    /// sender's nonce is raised, and the result says what to run. On
    /// failure the state's layers are what they were.
    pub fn begin<R: StateReader>(
        tx: &AccountTransaction,
        block_context: &BlockContext,
        flags: ExecutionFlags,
        state: &mut LayeredState<R>,
    ) -> (r: Result<(TransactionExecution, Action), TransactionExecutionError>)
        requires
            old(state).valid(),
            old(state).consistent(),
            old(state).spec_depth() + 2 <= usize::MAX,
        ensures
            final(state).valid(),
            final(state).consistent(),
            final(state).spec_base() == old(state).spec_base(),
            ({
                let tx_context = TransactionContext {
                    block_context: *block_context,
                    tx_info: tx.tx_info,
                    sender_balance_keys: tx.sender_balance_keys,
                };
                match spec_admission(old(state).spec_ledger(), tx_context, tx.kind, flags) {
                    Err(e) => r == Err::<(TransactionExecution, Action), TransactionExecutionError>(e)
                        && final(state).spec_layers() == old(state).spec_layers(),
                    Ok(()) => r matches Ok((machine, action)) && {
                        &&& machine.spec_tx_context() == tx_context
                        &&& machine.spec_kind() == tx.kind
                        &&& machine.spec_flags() == flags
                        &&& machine.spec_outer().depth == old(state).spec_depth()
                        &&& machine.spec_validate_outcome() is None
                        &&& machine.spec_validate_resources().spec_is_empty()
                        &&& machine.spec_execute_outcome() is None
                        &&& machine.spec_receipt() is None
                        &&& machine.spec_revert_error() is None
                        &&& admitted(
                            old(state).spec_layers(),
                            final(state).spec_layers(),
                            machine.spec_outer(),
                        )
                        &&& final(state).spec_layers().len() == old(state).spec_layers().len() + 2
                        &&& final(state).spec_layers() == stack_after_admission(
                            old(state).spec_base_fn(),
                            old(state).spec_layers(),
                            tx_context,
                            tx.kind,
                            flags,
                        )
                        // Without the phase's layer the cells show the raised
                        // nonce and nothing else that is new.
                        &&& ledger(
                            old(state).spec_base_fn(),
                            final(state).spec_layers().drop_last(),
                        ) == spec_cells_after_admission(old(state).spec_ledger(), tx_context)
                        &&& if flags.validate {
                            &&& machine.spec_phase() == Phase::Received
                            &&& action == spec_validate_action(tx_context, flags)
                            &&& final(state).spec_ledger() == spec_cells_after_admission(
                                old(state).spec_ledger(),
                                tx_context,
                            )
                        } else {
                            &&& machine.spec_phase() == Phase::Validated
                            &&& action == spec_execute_action(tx_context, flags, 0)
                            &&& final(state).spec_ledger() == spec_cells_at_execute(
                                spec_cells_after_admission(old(state).spec_ledger(), tx_context),
                                tx.kind,
                            )
                        }
                    },
                }
            }),
    {
        let tx_context = block_context.to_tx_context(tx.tx_info, tx.sender_balance_keys);
        let ghost entry = state.spec_layers();
        let ghost cells = state.spec_ledger();
        let ghost base = state.spec_base_fn();
        proof {
            state.lemma_valid_has_layer();
        }
        if !tx_context.balance_keys_consistent() {
            return Err(TransactionExecutionError::InconsistentBalanceKeys);
        }
        let fields = tx_context.tx_info.common_fields();
        let is_current = match tx_context.tx_info {
            TransactionInfo::Current(_) => true,
            TransactionInfo::Deprecated(_) => false,
        };
        let is_three = match fields.version {
            TransactionVersion::Three => true,
            _ => false,
        };
        if is_current != is_three {
            return Err(TransactionExecutionError::InvalidVersion);
        }
        let is_zero = match fields.version {
            TransactionVersion::Zero => true,
            _ => false,
        };
        let outer = state.create_transactional();
        proof {
            assert(state.spec_layers().drop_last() =~= entry);
        }
        if !is_zero {
            let account_nonce = state.get_nonce_at(fields.sender_address);
            if account_nonce != fields.nonce {
                let _ = state.discard(outer);
                return Err(
                    TransactionExecutionError::InvalidNonce {
                        account_nonce,
                        incoming_tx_nonce: fields.nonce,
                    },
                );
            }
            match state.increment_nonce(fields.sender_address) {
                Ok(()) => {},
                Err(_) => {
                    let _ = state.discard(outer);
                    return Err(TransactionExecutionError::NonceOverflow);
                },
            }
        }
        assert(state.spec_ledger() == spec_cells_after_admission(cells, tx_context));
        match tx.kind {
            TransactionKind::Declare { class_hash, compiled_class_hash } => {
                if fields.version.number() >= 2 {
                    if state.is_declared(class_hash) {
                        let _ = state.discard(outer);
                        return Err(TransactionExecutionError::ClassAlreadyDeclared { class_hash });
                    }
                }
            },
            _ => {},
        }
        if flags.charge_fee && tx_context.tx_info.enforce_fee() {
            match price_too_low(&tx_context) {
                Some(e) => {
                    let _ = state.discard(outer);
                    return Err(e);
                },
                None => {},
            }
            let token = tx_context.fee_token_address();
            let keys = tx_context.sender_balance_keys;
            let balance = match read_balance(state, token, &keys) {
                Some(b) => b,
                None => Balance { low: 0, high: 0 },
            };
            let max_fee = tx_context.tx_info.max_fee();
            if !(balance.high > 0 || balance.low >= max_fee) {
                let _ = state.discard(outer);
                return Err(
                    TransactionExecutionError::BoundsExceedBalance {
                        max_fee,
                        balance_low: balance.low,
                        balance_high: balance.high,
                    },
                );
            }
        }
        assert(state.spec_layers().drop_last() == entry);
        let _ = state.create_transactional();
        proof {
            assert(state.spec_layers().drop_last().drop_last() =~= entry);
            assert(state.spec_layers().take(entry.len() as int) =~= entry);
        }
        if flags.validate {
            let action = Action::RunValidate {
                max_steps: max_steps(&tx_context, ExecutionMode::Validate, flags.charge_fee),
                initial_gas: initial_gas(&tx_context),
            };
            Ok(
                (
                    TransactionExecution {
                        tx_context,
                        kind: tx.kind,
                        flags,
                        phase: Phase::Received,
                        outer,
                        validate_resources: ExecutionResources::empty(),
                        validate_outcome: None,
                        execute_outcome: None,
                        receipt: None,
                        revert_error: None,
                    },
                    action,
                ),
            )
        } else {
            match tx.kind {
                TransactionKind::DeployAccount { contract_address, class_hash } => {
                    state.set_class_hash_at(contract_address, class_hash);
                },
                _ => {},
            }
            proof {
                assert(state.spec_layers().drop_last().drop_last() =~= entry);
                assert(state.spec_layers().take(entry.len() as int) =~= entry);
            }
            let action = execute_action(&tx_context, flags, 0);
            Ok(
                (
                    TransactionExecution {
                        tx_context,
                        kind: tx.kind,
                        flags,
                        phase: Phase::Validated,
                        outer,
                        validate_resources: ExecutionResources::empty(),
                        validate_outcome: None,
                        execute_outcome: None,
                        receipt: None,
                        revert_error: None,
                    },
                    action,
                ),
            )
        }
    }

    /// Takes what came of the validate phase. A failure rejects the
    /// transaction: its layers are dropped, so that the state is what it
    /// was before the transaction began, nonce included. A success merges
    /// the phase's layer into the transaction's own and opens a layer for
    /// the execute phase.
    pub fn on_validate<R: StateReader>(&mut self, outcome: PhaseOutcome, state: &mut LayeredState<R>) -> (r:
        Result<Action, TransactionExecutionError>)
        requires
            old(state).valid(),
            old(state).consistent(),
        ensures
            final(state).valid(),
            final(state).consistent(),
            final(state).spec_base() == old(state).spec_base(),
            final(self).spec_tx_context() == old(self).spec_tx_context(),
            final(self).spec_kind() == old(self).spec_kind(),
            final(self).spec_flags() == old(self).spec_flags(),
            final(self).spec_outer() == old(self).spec_outer(),
            final(self).spec_execute_outcome() == old(self).spec_execute_outcome(),
            final(self).spec_receipt() == old(self).spec_receipt(),
            final(self).spec_revert_error() == old(self).spec_revert_error(),
            if old(self).spec_phase() != Phase::Received {
                &&& r == Err::<Action, TransactionExecutionError>(TransactionExecutionError::OutOfPhase)
                &&& final(state).spec_layers() == old(state).spec_layers()
                &&& final(self).spec_phase() == old(self).spec_phase()
                &&& final(self).spec_validate_outcome() == old(self).spec_validate_outcome()
                &&& final(self).spec_validate_resources() == old(self).spec_validate_resources()
            } else if !spec_layers_fit(old(state).spec_depth(), old(self).spec_outer(), 2) {
                &&& r == Err::<Action, TransactionExecutionError>(
                    TransactionExecutionError::LayerMismatch,
                )
                &&& final(state).spec_layers() == old(state).spec_layers()
                &&& final(self).spec_phase() == old(self).spec_phase()
                &&& final(self).spec_validate_outcome() == old(self).spec_validate_outcome()
            } else if outcome.failure is Some {
                &&& r == Err::<Action, TransactionExecutionError>(
                    TransactionExecutionError::ValidateTransactionError {
                        message: outcome.failure->Some_0,
                    },
                )
                &&& final(state).spec_layers() == old(state).spec_layers().take(
                    old(self).spec_outer().depth as int,
                )
                &&& rejected(
                    old(self).spec_outer(),
                    old(state).spec_layers(),
                    final(state).spec_layers(),
                )
                &&& final(self).spec_phase() == Phase::Rejected
            } else {
                &&& r == Ok::<Action, TransactionExecutionError>(
                    spec_execute_action(
                        old(self).spec_tx_context(),
                        old(self).spec_flags(),
                        outcome.gas_consumed,
                    ),
                )
                &&& final(self).spec_phase() == Phase::Validated
                &&& final(self).spec_validate_outcome() == Some(outcome)
                &&& final(self).spec_validate_resources() == spec_outcome_resources(
                    outcome,
                    old(self).spec_tx_context(),
                )
                &&& final(state).spec_layers().len() == old(state).spec_layers().len()
                &&& ran_above(
                    old(self).spec_outer(),
                    old(state).spec_layers(),
                    final(state).spec_layers(),
                )
                &&& final(state).spec_ledger() == spec_cells_at_execute(
                    old(state).spec_ledger(),
                    old(self).spec_kind(),
                )
                &&& final(state).spec_layers() == stack_after_validation(
                    old(state).spec_layers(),
                    old(self).spec_kind(),
                )
                // Without the execute phase's layer the cells show what the
                // validate phase left.
                &&& ledger(old(state).spec_base_fn(), final(state).spec_layers().drop_last()) == old(
                    state,
                ).spec_ledger()
            },
    {
        let ghost entry = state.spec_layers();
        proof {
            state.lemma_valid_has_layer();
        }
        match self.phase {
            Phase::Received => {},
            _ => {
                return Err(TransactionExecutionError::OutOfPhase);
            },
        }
        let depth = state.depth();
        if depth < 2 || depth - 2 != self.outer.depth || self.outer.depth == 0 {
            return Err(TransactionExecutionError::LayerMismatch);
        }
        let sub = state.top_handle();
        let PhaseOutcome { resources, n_syscalls, gas_consumed, failure, call_info } = outcome;
        match failure {
            Some(message) => {
                let dropped_sub = state.discard(sub);
                assert(dropped_sub is Ok);
                let dropped_outer = state.discard(self.outer);
                assert(dropped_outer is Ok);
                self.phase = Phase::Rejected;
                proof {
                    assert(entry.drop_last().drop_last() =~= entry.take(self.outer.depth as int));
                }
                Err(TransactionExecutionError::ValidateTransactionError { message })
            },
            None => {
                let _ = state.commit(sub);
                proof {
                    assert(entry.drop_last().drop_last() =~= entry.take(self.outer.depth as int));
                    assert(state.spec_layers().take(self.outer.depth as int) =~= entry.take(
                        self.outer.depth as int,
                    ));
                }
                let ghost merged = state.spec_layers();
                let _ = state.create_transactional();
                match self.kind {
                    TransactionKind::DeployAccount { contract_address, class_hash } => {
                        state.set_class_hash_at(contract_address, class_hash);
                    },
                    _ => {},
                }
                proof {
                    assert(state.spec_layers().drop_last() =~= merged);
                    assert(state.spec_layers().take(self.outer.depth as int) =~= merged.take(
                        self.outer.depth as int,
                    ));
                }
                let action = execute_action(&self.tx_context, self.flags, gas_consumed);
                self.validate_resources = charged_resources(
                    resources,
                    n_syscalls,
                    self.tx_context.block_context.versioned_constants.os_steps_per_syscall,
                );
                self.validate_outcome = Some(
                    PhaseOutcome { resources, n_syscalls, gas_consumed, failure: None, call_info },
                );
                self.phase = Phase::Validated;
                Ok(action)
            },
        }
    }

    /// Takes what came of the execute phase and decides. The transaction
    /// is rejected, and its layers dropped, where the phase failed and
    /// cannot be reverted, or where an amount does not fit. Else the phase's
    /// layer is merged into the transaction's own, or dropped where the
    /// phase failed or the check after execution fails; the charge is
    /// worked out and kept for the fee step.
    pub fn on_execute<R: StateReader>(&mut self, outcome: PhaseOutcome, state: &mut LayeredState<R>) -> (r:
        Result<(), TransactionExecutionError>)
        requires
            old(state).valid(),
            old(state).consistent(),
        ensures
            final(state).valid(),
            final(state).consistent(),
            final(state).spec_base() == old(state).spec_base(),
            final(self).spec_tx_context() == old(self).spec_tx_context(),
            final(self).spec_kind() == old(self).spec_kind(),
            final(self).spec_flags() == old(self).spec_flags(),
            final(self).spec_outer() == old(self).spec_outer(),
            final(self).spec_validate_outcome() == old(self).spec_validate_outcome(),
            final(self).spec_validate_resources() == old(self).spec_validate_resources(),
            if old(self).spec_phase() != Phase::Validated {
                &&& r == Err::<(), TransactionExecutionError>(TransactionExecutionError::OutOfPhase)
                &&& final(state).spec_layers() == old(state).spec_layers()
                &&& final(self).spec_phase() == old(self).spec_phase()
            } else if !spec_layers_fit(old(state).spec_depth(), old(self).spec_outer(), 2) {
                &&& r == Err::<(), TransactionExecutionError>(TransactionExecutionError::LayerMismatch)
                &&& final(state).spec_layers() == old(state).spec_layers()
                &&& final(self).spec_phase() == old(self).spec_phase()
            } else {
                match spec_execute_verdict(
                    old(state).spec_base_fn(),
                    old(state).spec_layers(),
                    old(self).spec_tx_context(),
                    old(self).spec_kind(),
                    old(self).spec_flags(),
                    old(self).spec_validate_resources(),
                    outcome,
                ) {
                    ExecuteVerdict::Rejected(e) => {
                        &&& r == Err::<(), TransactionExecutionError>(e)
                        &&& final(state).spec_layers() == old(state).spec_layers().take(
                            old(self).spec_outer().depth as int,
                        )
                        &&& final(self).spec_phase() == Phase::Rejected
                    },
                    ExecuteVerdict::Kept(receipt) => {
                        &&& r is Ok
                        &&& final(self).spec_phase() == Phase::Executed
                        &&& final(self).spec_receipt() == Some(receipt)
                        &&& final(self).spec_revert_error() is None
                        &&& final(self).spec_execute_outcome() == Some(outcome)
                        &&& final(state).spec_layers().len() == old(state).spec_layers().len() - 1
                        &&& final(state).spec_layers().take(old(self).spec_outer().depth as int)
                            == old(state).spec_layers().take(old(self).spec_outer().depth as int)
                        &&& final(state).spec_ledger() == spec_cells_after_execute(
                            old(state).spec_ledger(),
                            old(self).spec_kind(),
                        )
                        &&& final(state).spec_layers() == stack_after_charge(
                            old(state).spec_base_fn(),
                            merged_stack(
                                stack_after_execute(old(state).spec_layers(), old(self).spec_kind()),
                            ),
                            old(self).spec_tx_context(),
                            spec_kept_computation(
                                old(self).spec_validate_resources(),
                                outcome,
                                old(self).spec_tx_context(),
                            ),
                            old(self).spec_flags().charge_fee,
                        )
                    },
                    ExecuteVerdict::Reverted(receipt, message) => {
                        &&& r is Ok
                        &&& final(self).spec_phase() == Phase::Executed
                        &&& final(self).spec_receipt() == Some(receipt)
                        &&& final(self).spec_revert_error() matches Some(m) && m@ == message
                        &&& final(self).spec_execute_outcome() == Some(outcome)
                        &&& final(state).spec_layers().len() == old(state).spec_layers().len() - 1
                        &&& final(state).spec_layers().take(old(self).spec_outer().depth as int)
                            == old(state).spec_layers().take(old(self).spec_outer().depth as int)
                        &&& final(state).spec_ledger() == ledger(
                            old(state).spec_base_fn(),
                            old(state).spec_layers().drop_last(),
                        )
                        &&& final(state).spec_top().writes == old(state).spec_layers()[old(
                            self,
                        ).spec_outer().depth as int].writes
                        &&& final(state).spec_layers() == stack_after_charge(
                            old(state).spec_base_fn(),
                            old(state).spec_layers().drop_last(),
                            old(self).spec_tx_context(),
                            spec_reverted_computation(
                                old(self).spec_validate_resources(),
                                outcome,
                                old(self).spec_tx_context(),
                            ),
                            old(self).spec_flags().charge_fee,
                        )
                    },
                }
            },
    {
        let ghost entry = state.spec_layers();
        let ghost base = state.spec_base_fn();
        proof {
            state.lemma_valid_has_layer();
        }
        match self.phase {
            Phase::Validated => {},
            _ => {
                return Err(TransactionExecutionError::OutOfPhase);
            },
        }
        let depth = state.depth();
        if depth < 2 || depth - 2 != self.outer.depth || self.outer.depth == 0 {
            return Err(TransactionExecutionError::LayerMismatch);
        }
        let sub = state.top_handle();
        let version_is_zero = match self.tx_context.tx_info.version() {
            TransactionVersion::Zero => true,
            _ => false,
        };
        let deploys_account = match self.kind {
            TransactionKind::DeployAccount { .. } => true,
            _ => false,
        };
        let revertible = self.tx_context.block_context.versioned_constants.enable_reverts
            && !version_is_zero && !deploys_account;
        let ghost kept = entry.drop_last();
        proof {
            assert(kept.drop_last() =~= entry.take(self.outer.depth as int));
            assert(kept.take(self.outer.depth as int) =~= entry.take(self.outer.depth as int));
            assert(entry.drop_last().drop_last() =~= entry.take(self.outer.depth as int));
        }
        let PhaseOutcome { resources, n_syscalls, gas_consumed, failure, call_info } = outcome;
        match failure {
            Some(message) => {
                let stored = PhaseOutcome {
                    resources,
                    n_syscalls,
                    gas_consumed,
                    failure: Some(message.clone()),
                    call_info,
                };
                let dropped = state.discard(sub);
                assert(dropped is Ok);
                if !revertible {
                    let dropped_outer = state.discard(self.outer);
                    assert(dropped_outer is Ok);
                    self.phase = Phase::Rejected;
                    return Err(TransactionExecutionError::ExecutionError { message });
                }
                self.revert(state, stored, None, message)
            },
            None => {
                let stored = PhaseOutcome {
                    resources,
                    n_syscalls,
                    gas_consumed,
                    failure: None,
                    call_info,
                };
                self.settle(state, stored)
            },
        }
    }

    /// Decides on an execute phase that ran to its end; the state has the
    /// phase's layer on top of the transaction's own.
    fn settle<R: StateReader>(&mut self, state: &mut LayeredState<R>, stored: PhaseOutcome) -> (r:
        Result<(), TransactionExecutionError>)
        requires
            old(state).valid(),
            old(state).consistent(),
            spec_layers_fit(old(state).spec_depth(), old(self).spec_outer(), 2),
            stored.failure is None,
        ensures
            final(state).valid(),
            final(state).consistent(),
            final(state).spec_base() == old(state).spec_base(),
            final(self).spec_tx_context() == old(self).spec_tx_context(),
            final(self).spec_kind() == old(self).spec_kind(),
            final(self).spec_flags() == old(self).spec_flags(),
            final(self).spec_outer() == old(self).spec_outer(),
            final(self).spec_validate_outcome() == old(self).spec_validate_outcome(),
            final(self).spec_validate_resources() == old(self).spec_validate_resources(),
            match spec_execute_verdict(
                old(state).spec_base_fn(),
                old(state).spec_layers(),
                old(self).spec_tx_context(),
                old(self).spec_kind(),
                old(self).spec_flags(),
                old(self).spec_validate_resources(),
                stored,
            ) {
                ExecuteVerdict::Rejected(e) => {
                    &&& r == Err::<(), TransactionExecutionError>(e)
                    &&& final(state).spec_layers() == old(state).spec_layers().take(
                        old(self).spec_outer().depth as int,
                    )
                    &&& final(self).spec_phase() == Phase::Rejected
                },
                ExecuteVerdict::Kept(receipt) => {
                    &&& r is Ok
                    &&& final(self).spec_phase() == Phase::Executed
                    &&& final(self).spec_receipt() == Some(receipt)
                    &&& final(self).spec_revert_error() is None
                    &&& final(self).spec_execute_outcome() == Some(stored)
                    &&& final(state).spec_layers().len() == old(state).spec_layers().len() - 1
                    &&& final(state).spec_layers().take(old(self).spec_outer().depth as int)
                        == old(state).spec_layers().take(old(self).spec_outer().depth as int)
                    &&& final(state).spec_ledger() == spec_cells_after_execute(
                        old(state).spec_ledger(),
                        old(self).spec_kind(),
                    )
                    &&& final(state).spec_layers() == stack_after_charge(
                        old(state).spec_base_fn(),
                        merged_stack(
                            stack_after_execute(old(state).spec_layers(), old(self).spec_kind()),
                        ),
                        old(self).spec_tx_context(),
                        spec_kept_computation(
                            old(self).spec_validate_resources(),
                            stored,
                            old(self).spec_tx_context(),
                        ),
                        old(self).spec_flags().charge_fee,
                    )
                },
                ExecuteVerdict::Reverted(receipt, message) => {
                    &&& r is Ok
                    &&& final(self).spec_phase() == Phase::Executed
                    &&& final(self).spec_receipt() == Some(receipt)
                    &&& final(self).spec_revert_error() matches Some(m) && m@ == message
                    &&& final(self).spec_execute_outcome() == Some(stored)
                    &&& final(state).spec_layers().len() == old(state).spec_layers().len() - 1
                    &&& final(state).spec_layers().take(old(self).spec_outer().depth as int)
                        == old(state).spec_layers().take(old(self).spec_outer().depth as int)
                    &&& final(state).spec_ledger() == ledger(
                        old(state).spec_base_fn(),
                        old(state).spec_layers().drop_last(),
                    )
                    &&& final(state).spec_top().writes == old(state).spec_layers()[old(
                        self,
                    ).spec_outer().depth as int].writes
                    &&& final(state).spec_layers() == stack_after_charge(
                        old(state).spec_base_fn(),
                        old(state).spec_layers().drop_last(),
                        old(self).spec_tx_context(),
                        spec_reverted_computation(
                            old(self).spec_validate_resources(),
                            stored,
                            old(self).spec_tx_context(),
                        ),
                        old(self).spec_flags().charge_fee,
                    )
                },
            },
    {
        let ghost entry = state.spec_layers();
        let ghost base = state.spec_base_fn();
        let ghost kept = entry.drop_last();
        proof {
            state.lemma_valid_has_layer();
            assert(kept.drop_last() =~= entry.take(self.outer.depth as int));
            assert(kept.take(self.outer.depth as int) =~= entry.take(self.outer.depth as int));
            assert(entry.drop_last().drop_last() =~= entry.take(self.outer.depth as int));
        }
        let sub = state.top_handle();
        let charged = charged_resources(
            stored.resources,
            stored.n_syscalls,
            self.tx_context.block_context.versioned_constants.os_steps_per_syscall,
        );
        let vm_resources = match self.validate_resources.checked_add(&charged) {
            Some(x) => x,
            None => {
                let _ = state.discard(sub);
                let _ = state.discard(self.outer);
                self.phase = Phase::Rejected;
                return Err(TransactionExecutionError::FeeComputationOverflow);
            },
        };
        match self.kind {
            TransactionKind::Declare { class_hash, compiled_class_hash } => {
                state.set_declared(class_hash);
                state.set_compiled_class_hash(class_hash, compiled_class_hash);
            },
            _ => {},
        }
        assert(state.spec_layers() == stack_after_execute(entry, self.kind));
        assert(state.spec_ledger() == spec_cells_after_execute(ledger(base, entry), self.kind));
        let ghost executed = state.spec_layers();
        proof {
            assert(executed.drop_last() =~= entry.drop_last());
            assert(executed[executed.len() - 2] == entry[entry.len() - 2]);
        }
        let snapshot = state.save_parent();
        let merged_ok = state.commit(sub);
        assert(merged_ok is Ok);
        let computation = ComputationResources { vm_resources, n_reverted_steps: 0 };
        proof {
            assert(state.spec_layers().drop_last() =~= entry.take(self.outer.depth as int));
        }
        match charge(state, &self.tx_context, computation, self.flags.charge_fee) {
            None => {
                let dropped_outer = state.discard(self.outer);
                assert(dropped_outer is Ok);
                self.phase = Phase::Rejected;
                Err(TransactionExecutionError::FeeComputationOverflow)
            },
            Some((receipt, report)) => match report.error {
                None => {
                    proof {
                        assert(state.spec_layers().take(self.outer.depth as int)
                            =~= state.spec_layers().drop_last());
                    }
                    self.receipt = Some(receipt);
                    self.revert_error = None;
                    self.execute_outcome = Some(stored);
                    self.phase = Phase::Executed;
                    Ok(())
                },
                Some(e) => {
                    state.restore_top(snapshot);
                    proof {
                        assert(state.spec_layers() =~= kept);
                        lemma_consistent_prefix(base, entry, entry.len() - 1);
                        assert(entry.take(entry.len() - 1) =~= kept);
                    }
                    let message = e.message();
                    self.revert(state, stored, Some(report.recommended_fee), message)
                },
            },
        }
    }

    /// Charges for an execute phase that is rolled back; the state has the
    /// transaction's own layer on top.
    fn revert<R: StateReader>(
        &mut self,
        state: &mut LayeredState<R>,
        outcome: PhaseOutcome,
        fee: Option<Fee>,
        message: String,
    ) -> (r: Result<(), TransactionExecutionError>)
        requires
            old(state).valid(),
            old(state).consistent(),
            spec_layers_fit(old(state).spec_depth(), old(self).spec_outer(), 1),
        ensures
            final(state).valid(),
            final(state).consistent(),
            final(state).spec_base() == old(state).spec_base(),
            final(self).spec_tx_context() == old(self).spec_tx_context(),
            final(self).spec_kind() == old(self).spec_kind(),
            final(self).spec_flags() == old(self).spec_flags(),
            final(self).spec_outer() == old(self).spec_outer(),
            final(self).spec_validate_outcome() == old(self).spec_validate_outcome(),
            final(self).spec_validate_resources() == old(self).spec_validate_resources(),
            match spec_revert_verdict(
                old(state).spec_base_fn(),
                old(state).spec_layers(),
                old(self).spec_tx_context(),
                old(self).spec_flags(),
                old(self).spec_validate_resources(),
                outcome,
                fee,
                message@,
            ) {
                ExecuteVerdict::Rejected(e) => {
                    &&& r == Err::<(), TransactionExecutionError>(e)
                    &&& final(state).spec_layers() == old(state).spec_layers().drop_last()
                    &&& final(self).spec_phase() == Phase::Rejected
                },
                ExecuteVerdict::Kept(_) => false,
                ExecuteVerdict::Reverted(receipt, text) => {
                    &&& r is Ok
                    &&& final(self).spec_phase() == Phase::Executed
                    &&& final(self).spec_receipt() == Some(receipt)
                    &&& final(self).spec_revert_error() matches Some(m) && m@ == text
                    &&& final(self).spec_execute_outcome() == Some(outcome)
                    &&& final(state).spec_layers().len() == old(state).spec_layers().len()
                    &&& final(state).spec_layers().drop_last() == old(state).spec_layers().drop_last()
                    &&& final(state).spec_ledger() == old(state).spec_ledger()
                    &&& final(state).spec_top().writes == old(state).spec_top().writes
                    &&& final(state).spec_layers() == stack_after_charge(
                        old(state).spec_base_fn(),
                        old(state).spec_layers(),
                        old(self).spec_tx_context(),
                        spec_reverted_computation(
                            old(self).spec_validate_resources(),
                            outcome,
                            old(self).spec_tx_context(),
                        ),
                        old(self).spec_flags().charge_fee,
                    )
                },
            },
    {
        let charged = charged_resources(
            outcome.resources,
            outcome.n_syscalls,
            self.tx_context.block_context.versioned_constants.os_steps_per_syscall,
        );
        let computation = ComputationResources {
            vm_resources: self.validate_resources,
            n_reverted_steps: charged.n_steps,
        };
        match charge(state, &self.tx_context, computation, self.flags.charge_fee) {
            None => {
                let dropped_outer = state.discard(self.outer);
                assert(dropped_outer is Ok);
                self.phase = Phase::Rejected;
                Err(TransactionExecutionError::FeeComputationOverflow)
            },
            Some((receipt, report)) => {
                let charged = match fee {
                    Some(f) => f,
                    None => report.recommended_fee,
                };
                self.receipt = Some(
                    TransactionReceipt {
                        fee: charged,
                        gas: receipt.gas,
                        da_gas: receipt.da_gas,
                        resources: receipt.resources,
                    },
                );
                self.revert_error = Some(message);
                self.execute_outcome = Some(outcome);
                self.phase = Phase::Executed;
                Ok(())
            },
        }
    }

    /// Charges the fee and closes the account of the transaction. Where
    /// the fee cannot be charged, the transaction is rejected after all and
    /// its layer dropped, nonce and all. Else the transaction's own layer
    /// stays on top of the state and holds what the transaction changed.
    pub fn finalize<R: StateReader>(self, state: &mut LayeredState<R>) -> (r: Result<
        TransactionExecutionInfo,
        TransactionExecutionError,
    >)
        requires
            old(state).valid(),
            old(state).consistent(),
        ensures
            final(state).valid(),
            final(state).consistent(),
            final(state).spec_base() == old(state).spec_base(),
            if self.spec_phase() != Phase::Executed || self.spec_receipt() is None {
                &&& r == Err::<TransactionExecutionInfo, TransactionExecutionError>(
                    TransactionExecutionError::OutOfPhase,
                )
                &&& final(state).spec_layers() == old(state).spec_layers()
            } else if !spec_layers_fit(old(state).spec_depth(), self.spec_outer(), 1) {
                &&& r == Err::<TransactionExecutionInfo, TransactionExecutionError>(
                    TransactionExecutionError::LayerMismatch,
                )
                &&& final(state).spec_layers() == old(state).spec_layers()
            } else {
                match spec_fee_step(
                    old(state).spec_ledger(),
                    self.spec_tx_context(),
                    self.spec_flags(),
                    self.spec_receipt()->Some_0.fee,
                ) {
                    Err(e) => {
                        &&& r == Err::<TransactionExecutionInfo, TransactionExecutionError>(e)
                        &&& final(state).spec_layers() == old(state).spec_layers().drop_last()
                    },
                    Ok(cells) => {
                        &&& r matches Ok(info)
                        &&& final(state).spec_ledger() == cells
                        &&& final(state).spec_layers() == stack_after_fee_step(
                            old(state).spec_base_fn(),
                            old(state).spec_layers(),
                            self.spec_tx_context(),
                            self.spec_flags(),
                            self.spec_receipt()->Some_0.fee,
                        )
                        &&& final(state).spec_layers().len() == old(state).spec_layers().len()
                        &&& final(state).spec_layers().drop_last() == old(state).spec_layers().drop_last()
                        &&& info.receipt == self.spec_receipt()->Some_0
                        &&& info.revert_error == self.spec_revert_error()
                        &&& info.validate_call_info == self.spec_validate_outcome()
                        &&& info.execute_call_info == self.spec_execute_outcome()
                        &&& info.final_phase == if self.spec_revert_error() is Some {
                            Phase::RevertedButCharged
                        } else {
                            Phase::Committed
                        }
                        &&& info.fee_transfer_call_info == spec_fee_transfer_record(
                            self.spec_tx_context(),
                            self.spec_flags(),
                            info.receipt.fee,
                        )
                        // With the sequencer's share put off, the transaction's
                        // layer learns nothing about the sequencer's balance
                        // cells; else the new balance stands written in it.
                        &&& info.fee_transfer_call_info is Some ==> {
                            let token = self.spec_tx_context().spec_fee_token_address();
                            let sequencer =
                                self.spec_tx_context().block_context.block_info.sequencer_balance_keys;
                            if spec_deferred(
                                self.spec_tx_context(),
                                self.spec_flags().concurrency_mode,
                            ) {
                                &&& knows_alike(
                                    old(state).spec_top(),
                                    final(state).spec_top(),
                                    low_cell(token, sequencer),
                                )
                                &&& knows_alike(
                                    old(state).spec_top(),
                                    final(state).spec_top(),
                                    high_cell(token, sequencer),
                                )
                            } else {
                                &&& stands_written(
                                    final(state).spec_top(),
                                    final(state).spec_ledger(),
                                    low_cell(token, sequencer),
                                )
                                &&& stands_written(
                                    final(state).spec_top(),
                                    final(state).spec_ledger(),
                                    high_cell(token, sequencer),
                                )
                            }
                        }
                    },
                }
            },
    {
        proof {
            state.lemma_valid_has_layer();
        }
        match self.phase {
            Phase::Executed => {},
            _ => {
                return Err(TransactionExecutionError::OutOfPhase);
            },
        }
        let receipt = match self.receipt {
            Some(x) => x,
            None => {
                return Err(TransactionExecutionError::OutOfPhase);
            },
        };
        let depth = state.depth();
        if depth < 1 || depth - 1 != self.outer.depth || self.outer.depth == 0 {
            return Err(TransactionExecutionError::LayerMismatch);
        }
        let fee = receipt.fee;
        let transfer = if !self.flags.charge_fee || fee == 0 {
            None
        } else {
            if self.tx_context.tx_info.enforce_fee() {
                match check_actual_fee_in_bounds(&self.tx_context, fee) {
                    Ok(()) => {},
                    Err(e) => {
                        let dropped = state.discard(self.outer);
                        assert(dropped is Ok);
                        return Err(TransactionExecutionError::FeeBounds(e));
                    },
                }
            }
            match execute_fee_transfer(state, &self.tx_context, fee, self.flags.concurrency_mode) {
                Ok(info) => Some(info),
                Err(e) => {
                    let dropped = state.discard(self.outer);
                    assert(dropped is Ok);
                    return Err(TransactionExecutionError::FeeTransfer(e));
                },
            }
        };
        let final_phase = if self.revert_error.is_some() {
            Phase::RevertedButCharged
        } else {
            Phase::Committed
        };
        Ok(
            TransactionExecutionInfo {
                validate_call_info: self.validate_outcome,
                execute_call_info: self.execute_outcome,
                fee_transfer_call_info: transfer,
                receipt,
                revert_error: self.revert_error,
                final_phase,
            },
        )
    }
}

} // verus!
