use blockifier::context::{
    BalanceKeys, BlockContext, BlockInfo, ChainInfo, FeeTokenAddresses, VersionedConstants,
};
use blockifier::fee_transfer::{read_balance, Balance, FeeTransferError, FeeTransferInfo};
use blockifier::felt::Felt;
use blockifier::fields::{
    AllResourceBounds, CommonAccountFields, CurrentTransactionInfo, DeprecatedTransactionInfo,
    ResourceBounds, TransactionInfo, TransactionVersion, ValidResourceBounds,
};
use blockifier::gas::{GasPriceVector, GasPrices, NonzeroGasPrice, Resource};
use blockifier::resources::{
    DaGasCosts, ExecutionResources, GasCosts, L2GasCosts, ResourceCost, VmResourceCosts,
};
use blockifier::state::{DictStateReader, LayeredState};
use blockifier::state_map::CellKey;
use blockifier::transaction::{
    initial_gas, AccountTransaction, Action, ExecutionFlags, Phase, PhaseOutcome,
    TransactionExecution, TransactionExecutionError, TransactionKind,
};

type State = LayeredState<DictStateReader>;

const ACCOUNT: u128 = 0x1001;
const SEQUENCER: u128 = 0x3001;
const ETH: u128 = 0x4001;
const STRK: u128 = 0x4002;
const CONTRACT: u128 = 0x2001;

fn felt(x: u128) -> Felt {
    Felt::from_u128(x)
}

fn keys_of(address: u128) -> BalanceKeys {
    BalanceKeys::new(felt(address * 2)).unwrap()
}

fn block_context() -> BlockContext {
    let price = |x| NonzeroGasPrice::new(x).unwrap();
    let prices = GasPriceVector { l1_gas_price: price(10), l1_data_gas_price: price(2), l2_gas_price: price(1) };
    let cost = |n, d| ResourceCost::new(n, d).unwrap();
    BlockContext {
        block_info: BlockInfo {
            block_number: 1,
            sequencer_address: felt(SEQUENCER),
            sequencer_balance_keys: keys_of(SEQUENCER),
            gas_prices: GasPrices { eth: prices, strk: prices },
            use_kzg_da: false,
        },
        chain_info: ChainInfo {
            fee_token_addresses: FeeTokenAddresses {
                strk_fee_token_address: felt(STRK),
                eth_fee_token_address: felt(ETH),
            },
        },
        versioned_constants: VersionedConstants {
            invoke_tx_max_n_steps: 100_000,
            validate_max_n_steps: 10_000,
            max_recursion_depth: 10,
            enable_reverts: true,
            default_initial_gas_cost: 1_000_000,
            os_steps_per_syscall: 0,
            gas_costs: GasCosts {
                vm_resource_fee_cost: VmResourceCosts { n_steps: cost(1, 100), builtins: [cost(0, 1); 12] },
                l2_gas_costs: L2GasCosts { step_gas_cost: 10, memory_hole_gas_cost: 1, builtins: [0; 12] },
                da_gas_costs: DaGasCosts {
                    data_gas_per_field_element: 1,
                    gas_per_da_word: 10,
                    modified_contract_discount: 0,
                    storage_update_discount: 0,
                },
            },
        },
    }
}

fn state_with_balance(balance: u128) -> State {
    let mut base = DictStateReader::new();
    for token in [ETH, STRK] {
        base.set(CellKey::Storage(felt(token), keys_of(ACCOUNT).low()), felt(balance));
    }
    base.set(CellKey::Nonce(felt(ACCOUNT)), felt(7));
    LayeredState::new(base)
}

fn legacy_tx(max_fee: u128, nonce: u128) -> AccountTransaction {
    AccountTransaction {
        tx_info: TransactionInfo::Deprecated(DeprecatedTransactionInfo {
            common_fields: CommonAccountFields {
                transaction_hash: felt(0),
                version: TransactionVersion::One,
                nonce: felt(nonce),
                sender_address: felt(ACCOUNT),
                only_query: false,
            },
            max_fee,
        }),
        kind: TransactionKind::Invoke,
        sender_balance_keys: keys_of(ACCOUNT),
    }
}

fn current_tx(resource_bounds: ValidResourceBounds, nonce: u128) -> AccountTransaction {
    AccountTransaction {
        tx_info: TransactionInfo::Current(CurrentTransactionInfo {
            common_fields: CommonAccountFields {
                transaction_hash: felt(0),
                version: TransactionVersion::Three,
                nonce: felt(nonce),
                sender_address: felt(ACCOUNT),
                only_query: false,
            },
            resource_bounds,
        }),
        kind: TransactionKind::Invoke,
        sender_balance_keys: keys_of(ACCOUNT),
    }
}

fn all_bounds(price: u128) -> ValidResourceBounds {
    let bound = |max_amount| ResourceBounds { max_amount, max_price_per_unit: price };
    ValidResourceBounds::AllResources(AllResourceBounds {
        l1_gas: bound(1_000),
        l2_gas: bound(100_000),
        l1_data_gas: bound(1_000),
    })
}

const FLAGS: ExecutionFlags = ExecutionFlags { charge_fee: true, validate: true, concurrency_mode: false };

fn steps(n: u64) -> PhaseOutcome {
    PhaseOutcome::success(ExecutionResources::from_steps(n), 0)
}

fn failure(n: u64, message: &str) -> PhaseOutcome {
    PhaseOutcome::failed(ExecutionResources::from_steps(n), 0, message.to_string())
}

fn balance(state: &mut State, token: u128, address: u128) -> Balance {
    read_balance(state, felt(token), &keys_of(address)).unwrap()
}

fn begin_error(state: &mut State, block: &BlockContext, tx: &AccountTransaction, flags: ExecutionFlags) -> TransactionExecutionError {
    let depth = state.depth();
    let error = TransactionExecution::begin(tx, block, flags, state).err().unwrap();
    // A transaction that is not admitted leaves the layers as they were.
    assert_eq!(state.depth(), depth);
    error
}

#[test]
fn the_phases_follow_one_another() {
    let block = block_context();
    let mut state = state_with_balance(1_000_000);
    let tx = legacy_tx(100_000, 7);
    let (mut machine, action) = TransactionExecution::begin(&tx, &block, FLAGS, &mut state).unwrap();
    assert_eq!(machine.phase(), Phase::Received);
    assert_eq!(state.depth(), 3);
    assert_eq!(machine.layer().depth, 1);
    // 100000 of fee at a price of 10 buys 10000 units of gas, a million steps; the block allows
    // ten thousand for validation.
    assert_eq!(action, Action::RunValidate { max_steps: 10_000, initial_gas: 1_000_000 });
    assert_eq!(initial_gas(&machine.tx_context()), 1_000_000);
    // The nonce is raised on admission.
    assert_eq!(state.get_nonce_at(felt(ACCOUNT)), felt(8));

    let action = machine.on_validate(PhaseOutcome::success(ExecutionResources::from_steps(300), 250), &mut state).unwrap();
    assert_eq!(machine.phase(), Phase::Validated);
    assert_eq!(action, Action::RunExecute { max_steps: 100_000, initial_gas: 999_750 });
    assert_eq!(state.depth(), 3);

    state.set_storage_at(felt(CONTRACT), felt(1), felt(11));
    machine.on_execute(steps(700), &mut state).unwrap();
    assert_eq!(machine.phase(), Phase::Executed);
    assert_eq!(state.depth(), 2);

    let info = machine.finalize(&mut state).unwrap();
    assert_eq!(info.final_phase, Phase::Committed);
    assert!(!info.is_reverted());
    assert_eq!(info.validate_call_info.unwrap().gas_consumed, 250);
    assert_eq!(info.execute_call_info.unwrap().resources.n_steps, 700);
    // Two contracts and two cells, the sender's balance being counted ahead of the transfer:
    // 2 * 2 + 2 * 2 = 8 words at 10 units of gas, and 1000 steps at a hundredth of a unit each.
    assert_eq!(info.receipt.resources.state_changes_for_fee.n_modified_contracts, 2);
    assert_eq!(info.receipt.resources.state_changes_for_fee.n_storage_updates, 2);
    assert_eq!(info.receipt.resources.computation.vm_resources.n_steps, 1_000);
    assert_eq!(info.receipt.resources.computation.n_reverted_steps, 0);
    assert_eq!(info.receipt.gas.l1_gas, 80 + 10);
    assert_eq!(info.receipt.da_gas.l1_gas, 80);
    assert_eq!(info.receipt.fee, 900);
    let transfer = info.fee_transfer_call_info.unwrap();
    assert_eq!(transfer.amount, 900);
    assert!(!transfer.sequencer_share_deferred);
    // The transaction's layer holds what it changed; the state below is untouched until the
    // layer is merged.
    assert_eq!(state.depth(), 2);
    assert_eq!(balance(&mut state, ETH, ACCOUNT), Balance { low: 1_000_000 - 900, high: 0 });
    assert_eq!(balance(&mut state, ETH, SEQUENCER), Balance { low: 900, high: 0 });
    assert_eq!(state.get_storage_at(felt(CONTRACT), felt(1)), felt(11));
}

#[test]
fn a_failed_validation_leaves_no_trace() {
    let block = block_context();
    let mut state = state_with_balance(1_000_000);
    let tx = legacy_tx(100_000, 7);
    let (mut machine, _) = TransactionExecution::begin(&tx, &block, FLAGS, &mut state).unwrap();
    // Whatever validation did before it failed.
    state.set_storage_at(felt(CONTRACT), felt(1), felt(11));
    state.set_class_hash_at(felt(CONTRACT), felt(5));
    let error = machine.on_validate(failure(50, "bad signature"), &mut state).unwrap_err();
    assert_eq!(
        error,
        TransactionExecutionError::ValidateTransactionError { message: "bad signature".to_string() }
    );
    assert_eq!(error.message(), "Transaction validation has failed:\nbad signature");
    assert_eq!(machine.phase(), Phase::Rejected);
    assert_eq!(state.depth(), 1);
    assert_eq!(state.get_nonce_at(felt(ACCOUNT)), felt(7));
    assert_eq!(balance(&mut state, ETH, ACCOUNT), Balance { low: 1_000_000, high: 0 });
    assert_eq!(state.get_class_hash_at(felt(CONTRACT)), felt(0));
    assert_eq!(state.get_storage_at(felt(CONTRACT), felt(1)), felt(0));
    // A rejected transaction takes no further step.
    assert_eq!(machine.on_execute(steps(1), &mut state), Err(TransactionExecutionError::OutOfPhase));
    assert_eq!(machine.finalize(&mut state).err(), Some(TransactionExecutionError::OutOfPhase));
}

#[test]
fn a_revert_is_charged_for_and_raises_the_nonce_once() {
    let block = block_context();
    let mut state = state_with_balance(1_000_000);
    let tx = legacy_tx(100_000, 7);
    let (mut machine, _) = TransactionExecution::begin(&tx, &block, FLAGS, &mut state).unwrap();
    machine.on_validate(steps(300), &mut state).unwrap();
    state.set_storage_at(felt(CONTRACT), felt(1), felt(11));
    machine.on_execute(failure(700, "assertion failed"), &mut state).unwrap();
    let layer = machine.layer();
    let info = machine.finalize(&mut state).unwrap();
    state.commit(layer).unwrap();
    assert_eq!(info.final_phase, Phase::RevertedButCharged);
    assert_eq!(info.revert_error, Some("assertion failed".to_string()));
    // The steps that were burned while failing are charged for.
    assert_eq!(info.receipt.resources.computation.vm_resources.n_steps, 300);
    assert_eq!(info.receipt.resources.computation.n_reverted_steps, 700);
    assert_eq!(info.receipt.resources.computation.total_charged_steps(), Some(1_000));
    // One contract (the nonce) and one cell (the sender's balance, counted ahead): 4 words.
    assert_eq!(info.receipt.gas.l1_gas, 40 + 10);
    assert_eq!(info.receipt.fee, 500);
    assert_eq!(state.get_nonce_at(felt(ACCOUNT)), felt(8));
    assert_eq!(balance(&mut state, ETH, ACCOUNT), Balance { low: 1_000_000 - 500, high: 0 });
    assert_eq!(balance(&mut state, ETH, SEQUENCER), Balance { low: 500, high: 0 });
    // What the execute phase wrote is gone.
    assert_eq!(state.get_storage_at(felt(CONTRACT), felt(1)), felt(0));
}

#[test]
fn a_failure_that_cannot_be_reverted_rejects_the_transaction() {
    for (enable_reverts, version) in [(false, TransactionVersion::One), (true, TransactionVersion::Zero)] {
        let mut block = block_context();
        block.versioned_constants.enable_reverts = enable_reverts;
        let mut state = state_with_balance(1_000_000);
        let mut tx = legacy_tx(100_000, 7);
        if let TransactionInfo::Deprecated(info) = &mut tx.tx_info {
            info.common_fields.version = version;
        }
        let (mut machine, _) = TransactionExecution::begin(&tx, &block, FLAGS, &mut state).unwrap();
        machine.on_validate(steps(300), &mut state).unwrap();
        state.set_storage_at(felt(CONTRACT), felt(1), felt(11));
        let error = machine.on_execute(failure(700, "assertion failed"), &mut state).unwrap_err();
        assert_eq!(
            error,
            TransactionExecutionError::ExecutionError { message: "assertion failed".to_string() }
        );
        assert_eq!(error.message(), "Transaction execution has failed:\nassertion failed");
        assert_eq!(machine.phase(), Phase::Rejected);
        assert_eq!(state.depth(), 1);
        assert_eq!(state.get_nonce_at(felt(ACCOUNT)), felt(7));
        assert_eq!(balance(&mut state, ETH, ACCOUNT), Balance { low: 1_000_000, high: 0 });
    }
}

#[test]
fn consumption_beyond_the_bounds_is_reverted_at_the_bound() {
    let block = block_context();
    let mut state = state_with_balance(1_000_000);
    // The bounds allow 2000 steps' worth of L2 gas.
    let bound = |max_amount| ResourceBounds { max_amount, max_price_per_unit: 10 };
    let tx = current_tx(
        ValidResourceBounds::AllResources(AllResourceBounds {
            l1_gas: bound(1_000),
            l2_gas: bound(20_000),
            l1_data_gas: bound(1_000),
        }),
        7,
    );
    let (mut machine, action) = TransactionExecution::begin(&tx, &block, FLAGS, &mut state).unwrap();
    assert_eq!(action, Action::RunValidate { max_steps: 2_000, initial_gas: 20_000 });
    machine.on_validate(steps(1_500), &mut state).unwrap();
    state.set_storage_at(felt(CONTRACT), felt(1), felt(11));
    machine.on_execute(steps(1_500), &mut state).unwrap();
    let info = machine.finalize(&mut state).unwrap();
    assert_eq!(info.final_phase, Phase::RevertedButCharged);
    assert_eq!(
        info.revert_error,
        Some("Insufficient max L2Gas: max amount: 20000, actual used: 30000.".to_string())
    );
    // The fee is what the bounds add up to.
    assert_eq!(info.receipt.fee, 1_000 * 10 + 20_000 * 10 + 1_000 * 10);
    assert_eq!(info.receipt.resources.computation.n_reverted_steps, 1_500);
    assert_eq!(state.get_storage_at(felt(CONTRACT), felt(1)), felt(0));
    assert_eq!(balance(&mut state, STRK, ACCOUNT).low, 1_000_000 - 220_000);
}

#[test]
fn a_fee_that_cannot_be_paid_unwinds_everything() {
    let block = block_context();
    let mut state = state_with_balance(899);
    let tx = legacy_tx(0, 7);
    // The fee is not enforced, but charged.
    let (mut machine, _) = TransactionExecution::begin(&tx, &block, FLAGS, &mut state).unwrap();
    machine.on_validate(steps(300), &mut state).unwrap();
    state.set_storage_at(felt(CONTRACT), felt(1), felt(11));
    machine.on_execute(steps(700), &mut state).unwrap();
    let error = machine.finalize(&mut state).unwrap_err();
    assert_eq!(
        error,
        TransactionExecutionError::FeeTransfer(FeeTransferError::InsufficientBalance {
            fee: 900,
            balance_low: 899,
            balance_high: 0
        })
    );
    assert_eq!(error.message(), "Fee transfer failed: the balance does not cover the fee.");
    assert_eq!(state.depth(), 1);
    assert_eq!(state.get_nonce_at(felt(ACCOUNT)), felt(7));
    assert_eq!(balance(&mut state, ETH, ACCOUNT).low, 899);
    assert_eq!(state.get_storage_at(felt(CONTRACT), felt(1)), felt(0));
}

#[test]
fn without_a_charge_nothing_is_moved() {
    let block = block_context();
    let mut state = state_with_balance(0);
    let flags = ExecutionFlags { charge_fee: false, validate: false, concurrency_mode: false };
    let (mut machine, action) = TransactionExecution::begin(&legacy_tx(0, 7), &block, flags, &mut state).unwrap();
    // Validation is skipped, and the steps are not limited by the fee.
    assert_eq!(machine.phase(), Phase::Validated);
    assert_eq!(action, Action::RunExecute { max_steps: 100_000, initial_gas: 1_000_000 });
    assert_eq!(machine.on_validate(steps(1), &mut state), Err(TransactionExecutionError::OutOfPhase));
    machine.on_execute(steps(700), &mut state).unwrap();
    let info = machine.finalize(&mut state).unwrap();
    assert_eq!(info.fee_transfer_call_info, None);
    assert_eq!(info.validate_call_info, None);
    assert_eq!(info.receipt.resources.computation.vm_resources.n_steps, 700);
    assert!(info.receipt.fee > 0);
    assert_eq!(balance(&mut state, ETH, ACCOUNT).low, 0);
}

#[test]
fn admission_errors() {
    let block = block_context();
    let mut state = state_with_balance(1_000_000);

    // The nonce is not the account's.
    assert_eq!(
        begin_error(&mut state, &block, &legacy_tx(100, 8), FLAGS),
        TransactionExecutionError::InvalidNonce { account_nonce: felt(7), incoming_tx_nonce: felt(8) }
    );
    assert_eq!(state.get_nonce_at(felt(ACCOUNT)), felt(7));

    // Bounds with a version that declares a maximal fee, and the other way round.
    let mut mixed = current_tx(all_bounds(10), 7);
    if let TransactionInfo::Current(info) = &mut mixed.tx_info {
        info.common_fields.version = TransactionVersion::One;
    }
    assert_eq!(begin_error(&mut state, &block, &mixed, FLAGS), TransactionExecutionError::InvalidVersion);
    let mut mixed = legacy_tx(100, 7);
    if let TransactionInfo::Deprecated(info) = &mut mixed.tx_info {
        info.common_fields.version = TransactionVersion::Three;
    }
    assert_eq!(begin_error(&mut state, &block, &mixed, FLAGS), TransactionExecutionError::InvalidVersion);

    // A price bound below the block's price.
    let error = begin_error(&mut state, &block, &current_tx(all_bounds(9), 7), FLAGS);
    assert_eq!(
        error,
        TransactionExecutionError::MaxGasPriceTooLow {
            resource: Resource::L1Gas,
            max_gas_price: 9,
            actual_gas_price: 10
        }
    );
    assert_eq!(error.message(), "Max L1Gas price (9) is lower than the actual gas price: 10.");
    let cheap_data = ValidResourceBounds::AllResources(AllResourceBounds {
        l1_gas: ResourceBounds { max_amount: 1, max_price_per_unit: 10 },
        l2_gas: ResourceBounds { max_amount: 1, max_price_per_unit: 1 },
        l1_data_gas: ResourceBounds { max_amount: 1, max_price_per_unit: 1 },
    });
    assert_eq!(
        begin_error(&mut state, &block, &current_tx(cheap_data, 7), FLAGS),
        TransactionExecutionError::MaxGasPriceTooLow {
            resource: Resource::L1DataGas,
            max_gas_price: 1,
            actual_gas_price: 2
        }
    );
    let l1_only = ValidResourceBounds::L1Gas(ResourceBounds { max_amount: 1, max_price_per_unit: 1 });
    assert!(matches!(
        begin_error(&mut state, &block, &current_tx(l1_only, 7), FLAGS),
        TransactionExecutionError::MaxGasPriceTooLow { resource: Resource::L1Gas, .. }
    ));

    // A balance that does not cover what the transaction may cost.
    let error = begin_error(&mut state, &block, &legacy_tx(1_000_001, 7), FLAGS);
    assert_eq!(
        error,
        TransactionExecutionError::BoundsExceedBalance {
            max_fee: 1_000_001,
            balance_low: 1_000_000,
            balance_high: 0
        }
    );
    assert_eq!(error.message(), "Resources bounds (1000001) exceed balance (low/high 1000000/0).");
    // Without a charge the balance is not looked at.
    let no_charge = ExecutionFlags { charge_fee: false, ..FLAGS };
    assert!(TransactionExecution::begin(&legacy_tx(1_000_001, 7), &block, no_charge, &mut state).is_ok());
    assert_eq!(state.depth(), 3);
}

#[test]
fn balance_cells_that_do_not_fit_together_are_not_admitted() {
    let block = block_context();
    let mut state = state_with_balance(1_000_000);
    let mut tx = legacy_tx(100, 7);
    tx.sender_balance_keys = keys_of(SEQUENCER);
    let error = begin_error(&mut state, &block, &tx, FLAGS);
    assert_eq!(error, TransactionExecutionError::InconsistentBalanceKeys);
    assert_eq!(error.message(), "The balance cells of sender and sequencer do not fit together.");
}

#[test]
fn a_nonce_that_cannot_be_raised() {
    let block = block_context();
    let mut state = state_with_balance(1_000_000);
    let last = Felt { high: u128::MAX, low: u128::MAX };
    state.set(CellKey::Nonce(felt(ACCOUNT)), last);
    let mut tx = legacy_tx(100, 0);
    if let TransactionInfo::Deprecated(info) = &mut tx.tx_info {
        info.common_fields.nonce = last;
    }
    assert_eq!(begin_error(&mut state, &block, &tx, FLAGS), TransactionExecutionError::NonceOverflow);
    assert_eq!(state.get_nonce_at(felt(ACCOUNT)), last);
}

#[test]
fn a_transaction_of_version_zero_has_no_nonce() {
    let block = block_context();
    let mut state = state_with_balance(1_000_000);
    let mut tx = legacy_tx(100_000, 0);
    if let TransactionInfo::Deprecated(info) = &mut tx.tx_info {
        info.common_fields.version = TransactionVersion::Zero;
    }
    let (mut machine, _) = TransactionExecution::begin(&tx, &block, FLAGS, &mut state).unwrap();
    machine.on_validate(steps(1), &mut state).unwrap();
    machine.on_execute(steps(1), &mut state).unwrap();
    machine.finalize(&mut state).unwrap();
    assert_eq!(state.get_nonce_at(felt(ACCOUNT)), felt(7));
}

#[test]
fn a_declare_registers_its_class_once() {
    let block = block_context();
    let mut state = state_with_balance(1_000_000);
    let class_hash = felt(0xc1a55);
    let declare = |version, nonce| {
        let mut tx = legacy_tx(100_000, nonce);
        tx.kind = TransactionKind::Declare { class_hash, compiled_class_hash: felt(0xc0de) };
        if let TransactionInfo::Deprecated(info) = &mut tx.tx_info {
            info.common_fields.version = version;
        }
        tx
    };
    let (mut machine, _) =
        TransactionExecution::begin(&declare(TransactionVersion::Two, 7), &block, FLAGS, &mut state).unwrap();
    machine.on_validate(steps(10), &mut state).unwrap();
    machine.on_execute(steps(0), &mut state).unwrap();
    let layer = machine.layer();
    let info = machine.finalize(&mut state).unwrap();
    state.commit(layer).unwrap();
    assert!(!info.is_reverted());
    assert_eq!(info.receipt.resources.state_changes_for_fee.n_compiled_class_hash_updates, 1);
    assert!(state.is_declared(class_hash));
    assert_eq!(state.get_compiled_class_hash(class_hash), felt(0xc0de));

    // A second declare of version two or later is rejected, without a trace.
    let error = begin_error(&mut state, &block, &declare(TransactionVersion::Two, 8), FLAGS);
    assert_eq!(error, TransactionExecutionError::ClassAlreadyDeclared { class_hash });
    assert_eq!(error.message(), "The class is already declared.");
    assert_eq!(state.get_nonce_at(felt(ACCOUNT)), felt(8));
    // Version one is not held to it.
    assert!(TransactionExecution::begin(&declare(TransactionVersion::One, 8), &block, FLAGS, &mut state).is_ok());
}

#[test]
fn a_deploy_account_sets_its_class_hash_for_the_constructor() {
    let block = block_context();
    let mut state = state_with_balance(1_000_000);
    let mut tx = legacy_tx(100_000, 7);
    tx.kind = TransactionKind::DeployAccount { contract_address: felt(ACCOUNT), class_hash: felt(0xacc) };
    let (mut machine, _) = TransactionExecution::begin(&tx, &block, FLAGS, &mut state).unwrap();
    assert_eq!(state.get_class_hash_at(felt(ACCOUNT)), felt(0));
    machine.on_validate(steps(10), &mut state).unwrap();
    assert_eq!(state.get_class_hash_at(felt(ACCOUNT)), felt(0xacc));
    // An account whose constructor fails does not come into being: nothing is charged.
    let error = machine.on_execute(failure(10, "constructor failed"), &mut state).unwrap_err();
    assert!(matches!(error, TransactionExecutionError::ExecutionError { .. }));
    assert_eq!(state.depth(), 1);
    assert_eq!(state.get_class_hash_at(felt(ACCOUNT)), felt(0));
    assert_eq!(state.get_nonce_at(felt(ACCOUNT)), felt(7));
}

#[test]
fn a_failed_invoke_or_declare_is_reverted() {
    let kinds = [
        TransactionKind::Invoke,
        TransactionKind::Declare { class_hash: felt(0xc1a55), compiled_class_hash: felt(0xc0de) },
    ];
    for kind in kinds {
        // With reverts enabled the failure is charged for.
        let block = block_context();
        let mut state = state_with_balance(1_000_000);
        let mut tx = legacy_tx(100_000, 7);
        tx.kind = kind;
        let (mut machine, _) = TransactionExecution::begin(&tx, &block, FLAGS, &mut state).unwrap();
        machine.on_validate(steps(300), &mut state).unwrap();
        machine.on_execute(failure(700, "failed"), &mut state).unwrap();
        let info = machine.finalize(&mut state).unwrap();
        assert_eq!(info.final_phase, Phase::RevertedButCharged);
        assert_eq!(info.receipt.resources.computation.n_reverted_steps, 700);
        assert_eq!(state.get_nonce_at(felt(ACCOUNT)), felt(8));
        assert!(!state.is_declared(felt(0xc1a55)));
        // With reverts disabled it rejects the transaction.
        let mut block = block_context();
        block.versioned_constants.enable_reverts = false;
        let mut state = state_with_balance(1_000_000);
        let (mut machine, _) = TransactionExecution::begin(&tx, &block, FLAGS, &mut state).unwrap();
        machine.on_validate(steps(300), &mut state).unwrap();
        let error = machine.on_execute(failure(700, "failed"), &mut state).unwrap_err();
        assert_eq!(error, TransactionExecutionError::ExecutionError { message: "failed".to_string() });
        assert_eq!(state.depth(), 1);
        assert_eq!(state.get_nonce_at(felt(ACCOUNT)), felt(7));
    }
}

#[test]
fn admission_leaves_the_raised_nonce_in_the_layer_of_the_transaction() {
    let block = block_context();
    let nonce = CellKey::Nonce(felt(ACCOUNT));
    let low = CellKey::Storage(felt(ETH), keys_of(ACCOUNT).low());
    let high = CellKey::Storage(felt(ETH), keys_of(ACCOUNT).high());
    for validate in [true, false] {
        let mut state = state_with_balance(1_000_000);
        let flags = ExecutionFlags { charge_fee: true, validate, concurrency_mode: false };
        let (machine, _) = TransactionExecution::begin(&legacy_tx(100_000, 7), &block, flags, &mut state).unwrap();
        assert_eq!(state.depth(), 3);
        // The layer of the phase that is to run is empty.
        for key in [nonce, low, high] {
            assert_eq!(state.top_initial_read(&key), None);
            assert_eq!(state.top_write(&key), None);
        }
        // Below it, the layer of the transaction holds the nonce as it was read and as it was
        // raised, and the balance as it was read.
        let top = state.top_handle();
        state.discard(top).unwrap();
        assert_eq!(state.top_handle(), machine.layer());
        assert_eq!(state.top_initial_read(&nonce), Some(felt(7)));
        assert_eq!(state.top_write(&nonce), Some(felt(8)));
        assert_eq!(state.top_initial_read(&low), Some(felt(1_000_000)));
        assert_eq!(state.top_initial_read(&high), Some(felt(0)));
        assert_eq!(state.top_write(&low), None);
        assert_eq!(state.top_write(&high), None);
        assert_eq!(state.get_nonce_at(felt(ACCOUNT)), felt(8));
    }
}

#[test]
fn a_revert_without_validation_raises_the_nonce_all_the_same() {
    let block = block_context();
    let mut state = state_with_balance(1_000_000);
    let flags = ExecutionFlags { charge_fee: true, validate: false, concurrency_mode: false };
    let (mut machine, action) =
        TransactionExecution::begin(&legacy_tx(100_000, 7), &block, flags, &mut state).unwrap();
    assert!(matches!(action, Action::RunExecute { .. }));
    state.set_storage_at(felt(CONTRACT), felt(1), felt(11));
    machine.on_execute(failure(700, "assertion failed"), &mut state).unwrap();
    // The rollback leaves the raised nonce and nothing of the execute phase.
    assert_eq!(state.depth(), 2);
    assert_eq!(state.get_nonce_at(felt(ACCOUNT)), felt(8));
    assert_eq!(state.get_storage_at(felt(CONTRACT), felt(1)), felt(0));
    let info = machine.finalize(&mut state).unwrap();
    assert_eq!(info.final_phase, Phase::RevertedButCharged);
    assert_eq!(info.validate_call_info, None);
    assert_eq!(state.get_nonce_at(felt(ACCOUNT)), felt(8));
    assert_eq!(
        balance(&mut state, ETH, ACCOUNT),
        Balance { low: 1_000_000 - info.receipt.fee, high: 0 }
    );
    assert!(info.receipt.fee > 0);
}

#[test]
fn a_rollback_keeps_what_validation_wrote() {
    let block = block_context();
    let mut state = state_with_balance(1_000_000);
    let (mut machine, _) =
        TransactionExecution::begin(&legacy_tx(100_000, 7), &block, FLAGS, &mut state).unwrap();
    state.set_storage_at(felt(CONTRACT), felt(2), felt(22));
    machine.on_validate(steps(300), &mut state).unwrap();
    // The layer of the execute phase is empty; what validation wrote stands below it.
    assert_eq!(state.top_write(&CellKey::Storage(felt(CONTRACT), felt(2))), None);
    assert_eq!(state.get_storage_at(felt(CONTRACT), felt(2)), felt(22));
    state.set_storage_at(felt(CONTRACT), felt(1), felt(11));
    state.set_storage_at(felt(CONTRACT), felt(2), felt(33));
    machine.on_execute(failure(700, "assertion failed"), &mut state).unwrap();
    assert_eq!(state.top_write(&CellKey::Storage(felt(CONTRACT), felt(2))), Some(felt(22)));
    assert_eq!(state.top_write(&CellKey::Storage(felt(CONTRACT), felt(1))), None);
    assert_eq!(state.top_write(&CellKey::Nonce(felt(ACCOUNT))), Some(felt(8)));
    let info = machine.finalize(&mut state).unwrap();
    // The storage cell that validation wrote is paid for: two cells and two contracts.
    assert_eq!(info.receipt.da_gas.l1_gas, 2 * 20 + 2 * 20);
    assert_eq!(state.get_storage_at(felt(CONTRACT), felt(2)), felt(22));
    assert_eq!(state.get_storage_at(felt(CONTRACT), felt(1)), felt(0));
    assert_eq!(state.get_nonce_at(felt(ACCOUNT)), felt(8));
}

#[test]
fn the_record_of_the_fee_transfer_names_who_pays_whom() {
    let block = block_context();
    for concurrency_mode in [false, true] {
        let mut state = state_with_balance(1_000_000);
        let flags = ExecutionFlags { charge_fee: true, validate: true, concurrency_mode };
        let (mut machine, _) =
            TransactionExecution::begin(&legacy_tx(100_000, 7), &block, flags, &mut state).unwrap();
        machine.on_validate(steps(300), &mut state).unwrap();
        machine.on_execute(steps(700), &mut state).unwrap();
        let info = machine.finalize(&mut state).unwrap();
        assert_eq!(
            info.fee_transfer_call_info,
            Some(FeeTransferInfo {
                fee_token_address: felt(ETH),
                sender_address: felt(ACCOUNT),
                sequencer_address: felt(SEQUENCER),
                amount: info.receipt.fee,
                sequencer_share_deferred: concurrency_mode,
            })
        );
        assert!(info.receipt.fee > 0);
    }
    // Without a charge there is no transfer to record.
    let mut state = state_with_balance(1_000_000);
    let flags = ExecutionFlags { charge_fee: false, validate: true, concurrency_mode: false };
    let (mut machine, _) =
        TransactionExecution::begin(&legacy_tx(100_000, 7), &block, flags, &mut state).unwrap();
    machine.on_validate(steps(300), &mut state).unwrap();
    machine.on_execute(steps(700), &mut state).unwrap();
    assert_eq!(machine.finalize(&mut state).unwrap().fee_transfer_call_info, None);
}

#[test]
fn steps_that_do_not_fit_the_layers_are_refused() {
    let block = block_context();
    let mut state = state_with_balance(1_000_000);
    let (mut machine, _) = TransactionExecution::begin(&legacy_tx(100_000, 7), &block, FLAGS, &mut state).unwrap();
    // The phase left a layer of its own open.
    let extra = state.create_transactional();
    assert_eq!(machine.on_validate(steps(1), &mut state), Err(TransactionExecutionError::LayerMismatch));
    assert_eq!(machine.phase(), Phase::Received);
    assert_eq!(state.depth(), 4);
    state.discard(extra).unwrap();
    // The steps come in their order.
    assert_eq!(machine.on_execute(steps(1), &mut state), Err(TransactionExecutionError::OutOfPhase));
    machine.on_validate(steps(1), &mut state).unwrap();
    assert_eq!(machine.on_validate(steps(1), &mut state), Err(TransactionExecutionError::OutOfPhase));
    let extra = state.create_transactional();
    assert_eq!(machine.on_execute(steps(1), &mut state), Err(TransactionExecutionError::LayerMismatch));
    state.discard(extra).unwrap();
    machine.on_execute(steps(1), &mut state).unwrap();
    let extra = state.create_transactional();
    assert_eq!(
        TransactionExecutionError::LayerMismatch.message(),
        "The layers of the state are not those the transaction left."
    );
    let error = machine.finalize(&mut state).err();
    assert_eq!(error, Some(TransactionExecutionError::LayerMismatch));
    state.discard(extra).unwrap();
}

#[test]
fn counters_that_do_not_fit_reject_the_transaction() {
    let block = block_context();
    let mut state = state_with_balance(1_000_000);
    let (mut machine, _) = TransactionExecution::begin(&legacy_tx(100_000, 7), &block, FLAGS, &mut state).unwrap();
    machine.on_validate(steps(u64::MAX), &mut state).unwrap();
    let error = machine.on_execute(steps(1), &mut state).unwrap_err();
    assert_eq!(error, TransactionExecutionError::FeeComputationOverflow);
    assert_eq!(error.message(), "An amount of gas or a fee does not fit its type.");
    assert_eq!(state.depth(), 1);
    assert_eq!(state.get_nonce_at(felt(ACCOUNT)), felt(7));
}

#[test]
fn the_maximal_fee_does_not_change_the_charge() {
    let block = block_context();
    let mut fees = Vec::new();
    for max_fee in [50_000, 100_000] {
        let mut state = state_with_balance(1_000_000);
        let (mut machine, action) =
            TransactionExecution::begin(&legacy_tx(max_fee, 7), &block, FLAGS, &mut state).unwrap();
        machine.on_validate(steps(300), &mut state).unwrap();
        machine.on_execute(steps(700), &mut state).unwrap();
        let info = machine.finalize(&mut state).unwrap();
        fees.push((action, info.receipt));
    }
    assert_eq!(fees[0].1, fees[1].1);
    let mut block = block;
    block.versioned_constants.validate_max_n_steps = u32::MAX;
    let budget = |max_fee| {
        let mut state = state_with_balance(1_000_000);
        match TransactionExecution::begin(&legacy_tx(max_fee, 7), &block, FLAGS, &mut state).unwrap().1 {
            Action::RunValidate { max_steps, .. } => max_steps,
            Action::RunExecute { .. } => unreachable!(),
        }
    };
    assert_eq!(budget(100_000), 2 * budget(50_000));
    assert_eq!(budget(50_000), 500_000);
}

#[test]
fn system_calls_are_charged_as_steps() {
    let mut block = block_context();
    block.versioned_constants.os_steps_per_syscall = 50;
    let mut state = state_with_balance(1_000_000);
    let (mut machine, _) = TransactionExecution::begin(&legacy_tx(100_000, 7), &block, FLAGS, &mut state).unwrap();
    machine.on_validate(steps(300).with_syscalls(2), &mut state).unwrap();
    machine.on_execute(failure(700, "assertion failed").with_syscalls(4), &mut state).unwrap();
    let info = machine.finalize(&mut state).unwrap();
    assert_eq!(info.receipt.resources.computation.vm_resources.n_steps, 300 + 2 * 50);
    assert_eq!(info.receipt.resources.computation.n_reverted_steps, 700 + 4 * 50);
    assert_eq!(info.execute_call_info.unwrap().n_syscalls, 4);
    assert_eq!(
        blockifier::transaction::charged_resources(ExecutionResources::from_steps(u64::MAX), 1, 1).n_steps,
        u64::MAX
    );
}
