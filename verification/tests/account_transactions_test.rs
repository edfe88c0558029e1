use blockifier::budget::ExecutionMode;
use blockifier::changes::CellKind;
use blockifier::context::{
    BalanceKeys, BlockContext, BlockInfo, ChainInfo, FeeTokenAddresses, TransactionContext,
    VersionedConstants,
};
use blockifier::entry_point::{
    CallInfo, EntryPointExecutionContext, EntryPointExecutionError, TrackedResource,
};
use blockifier::fee_checks::{assert_actual_fee_in_bounds, check_actual_fee_in_bounds};
use blockifier::fee_transfer::{read_balance, write_balance, Balance};
use blockifier::felt::{ContractAddress, Felt};
use blockifier::fields::{
    AllResourceBounds, CommonAccountFields, CurrentTransactionInfo, DeprecatedTransactionInfo,
    ResourceBounds, TransactionInfo, TransactionVersion, ValidResourceBounds,
};
use blockifier::gas::{
    FeeType, GasPriceVector, GasPrices, GasVector, GasVectorComputationMode, NonzeroGasPrice,
    Resource,
};
use blockifier::resources::{
    BuiltinName, DaGasCosts, GasCosts, L2GasCosts, ResourceCost, StateChangesCount,
    VmResourceCosts,
};
use blockifier::state::{DictStateReader, LayerHandle, LayeredState};
use blockifier::state_map::CellKey;
use blockifier::transaction::{
    AccountTransaction, Action, ExecutionFlags, Phase, TransactionExecution,
    TransactionExecutionError, TransactionExecutionInfo, TransactionKind,
};

type State = LayeredState<DictStateReader>;
type Script<'a> = Box<dyn FnOnce(&mut State, &mut EntryPointExecutionContext) -> Result<(), String> + 'a>;

const DEFAULT_L1_GAS_AMOUNT: u64 = 1_000_000;
const DEFAULT_L2_GAS_MAX_AMOUNT: u64 = 10_000_000_000;
const DEFAULT_L1_DATA_GAS_MAX_AMOUNT: u64 = 1_000_000;
const DEFAULT_ETH_L1_GAS_PRICE: u128 = 100_000_000_000;
const DEFAULT_STRK_L1_GAS_PRICE: u128 = 100_000_000_000;
const DEFAULT_ETH_L1_DATA_GAS_PRICE: u128 = 1_000_000;
const DEFAULT_STRK_L1_DATA_GAS_PRICE: u128 = 1_000_000_000;
const DEFAULT_ETH_L2_GAS_PRICE: u128 = 25_000;
const DEFAULT_STRK_L2_GAS_PRICE: u128 = 25_000_000;
const MAX_FEE: u128 = DEFAULT_L1_GAS_AMOUNT as u128 * DEFAULT_ETH_L1_GAS_PRICE;
const BALANCE: u128 = 10 * MAX_FEE;

const ACCOUNT: u128 = 0x1001;
const TEST_CONTRACT: u128 = 0x2001;
const SEQUENCER: u128 = 0x3001;
const ETH_TOKEN: u128 = 0x4001;
const STRK_TOKEN: u128 = 0x4002;

const VALIDATE_STEPS: usize = 2_000;
const EXECUTE_OVERHEAD_STEPS: usize = 400;
const RECURSE_STEPS_PER_LEVEL: usize = 800;
const CALL_STEPS: usize = 40;

fn felt(x: u128) -> Felt {
    Felt::from_u128(x)
}

fn price(x: u128) -> NonzeroGasPrice {
    NonzeroGasPrice::new(x).unwrap()
}

fn balance_keys(address: ContractAddress) -> BalanceKeys {
    BalanceKeys::new(Felt { high: 1, low: address.low * 2 }).unwrap()
}

fn cost(numer: u32, denom: u32) -> ResourceCost {
    ResourceCost::new(numer, denom).unwrap()
}

fn versioned_constants() -> VersionedConstants {
    VersionedConstants {
        invoke_tx_max_n_steps: 10_000_000,
        validate_max_n_steps: 1_000_000,
        max_recursion_depth: 50,
        enable_reverts: true,
        default_initial_gas_cost: 10_000_000_000,
        os_steps_per_syscall: 0,
        gas_costs: GasCosts {
            vm_resource_fee_cost: VmResourceCosts {
                n_steps: cost(25, 10_000),
                builtins: [
                    cost(0, 1),
                    cost(4, 100),
                    cost(8, 100),
                    cost(512, 100),
                    cost(512, 100),
                    cost(16, 100),
                    cost(256, 100),
                    cost(8, 100),
                    cost(0, 1),
                    cost(4, 100),
                    cost(4, 100),
                    cost(4, 100),
                ],
            },
            l2_gas_costs: L2GasCosts {
                step_gas_cost: 100,
                memory_hole_gas_cost: 10,
                builtins: [0, 70, 4050, 0, 136189, 594, 4085, 491, 10, 56, 230, 604],
            },
            da_gas_costs: DaGasCosts {
                data_gas_per_field_element: 128,
                gas_per_da_word: 612,
                modified_contract_discount: 300,
                storage_update_discount: 240,
            },
        },
    }
}

fn block_context() -> BlockContext {
    BlockContext {
        block_info: BlockInfo {
            block_number: 2001,
            sequencer_address: felt(SEQUENCER),
            sequencer_balance_keys: balance_keys(felt(SEQUENCER)),
            gas_prices: GasPrices {
                eth: GasPriceVector {
                    l1_gas_price: price(DEFAULT_ETH_L1_GAS_PRICE),
                    l1_data_gas_price: price(DEFAULT_ETH_L1_DATA_GAS_PRICE),
                    l2_gas_price: price(DEFAULT_ETH_L2_GAS_PRICE),
                },
                strk: GasPriceVector {
                    l1_gas_price: price(DEFAULT_STRK_L1_GAS_PRICE),
                    l1_data_gas_price: price(DEFAULT_STRK_L1_DATA_GAS_PRICE),
                    l2_gas_price: price(DEFAULT_STRK_L2_GAS_PRICE),
                },
            },
            use_kzg_da: false,
        },
        chain_info: ChainInfo {
            fee_token_addresses: FeeTokenAddresses {
                strk_fee_token_address: felt(STRK_TOKEN),
                eth_fee_token_address: felt(ETH_TOKEN),
            },
        },
        versioned_constants: versioned_constants(),
    }
}

fn fund_account(state: &mut State, address: ContractAddress, amount: u128) {
    for token in [felt(ETH_TOKEN), felt(STRK_TOKEN)] {
        write_balance(state, token, &balance_keys(address), Balance { low: amount, high: 0 });
    }
}

/// A state in which each of the given accounts holds `balance` of both fee tokens.
fn test_state(balance: u128, accounts: &[u128]) -> State {
    let mut base = DictStateReader::new();
    for account in accounts {
        let keys = balance_keys(felt(*account));
        for token in [felt(ETH_TOKEN), felt(STRK_TOKEN)] {
            base.set(CellKey::Storage(token, keys.low()), felt(balance));
            base.set(CellKey::Storage(token, keys.high()), felt(0));
        }
    }
    LayeredState::new(base)
}

fn get_fee_token_balance(state: &mut State, address: ContractAddress, token: ContractAddress) -> (Felt, Felt) {
    let keys = balance_keys(address);
    (state.get_storage_at(token, keys.low()), state.get_storage_at(token, keys.high()))
}

fn l1_resource_bounds(max_amount: u64, max_price: u128) -> ValidResourceBounds {
    ValidResourceBounds::L1Gas(ResourceBounds { max_amount, max_price_per_unit: max_price })
}

fn create_all_resource_bounds(
    l1_max_amount: u64,
    l1_max_price: u128,
    l2_max_amount: u64,
    l2_max_price: u128,
    l1_data_max_amount: u64,
    l1_data_max_price: u128,
) -> ValidResourceBounds {
    ValidResourceBounds::AllResources(AllResourceBounds {
        l1_gas: ResourceBounds { max_amount: l1_max_amount, max_price_per_unit: l1_max_price },
        l2_gas: ResourceBounds { max_amount: l2_max_amount, max_price_per_unit: l2_max_price },
        l1_data_gas: ResourceBounds {
            max_amount: l1_data_max_amount,
            max_price_per_unit: l1_data_max_price,
        },
    })
}

fn default_l1_resource_bounds() -> ValidResourceBounds {
    l1_resource_bounds(DEFAULT_L1_GAS_AMOUNT, DEFAULT_STRK_L1_GAS_PRICE)
}

fn default_all_resource_bounds() -> ValidResourceBounds {
    create_all_resource_bounds(
        DEFAULT_L1_GAS_AMOUNT,
        DEFAULT_STRK_L1_GAS_PRICE,
        DEFAULT_L2_GAS_MAX_AMOUNT,
        DEFAULT_STRK_L2_GAS_PRICE,
        DEFAULT_L1_DATA_GAS_MAX_AMOUNT,
        DEFAULT_STRK_L1_DATA_GAS_PRICE,
    )
}

#[derive(Clone, Copy)]
struct InvokeTxArgs {
    max_fee: u128,
    resource_bounds: ValidResourceBounds,
    sender_address: u128,
    version: TransactionVersion,
    nonce: u128,
    only_query: bool,
}

impl Default for InvokeTxArgs {
    fn default() -> Self {
        InvokeTxArgs {
            max_fee: MAX_FEE,
            resource_bounds: default_all_resource_bounds(),
            sender_address: ACCOUNT,
            version: TransactionVersion::Three,
            nonce: 0,
            only_query: false,
        }
    }
}

fn tx_info(args: InvokeTxArgs) -> TransactionInfo {
    let common_fields = CommonAccountFields {
        transaction_hash: felt(0),
        version: args.version,
        nonce: felt(args.nonce),
        sender_address: felt(args.sender_address),
        only_query: args.only_query,
    };
    match args.version {
        TransactionVersion::Three => TransactionInfo::Current(CurrentTransactionInfo {
            common_fields,
            resource_bounds: args.resource_bounds,
        }),
        _ => TransactionInfo::Deprecated(DeprecatedTransactionInfo {
            common_fields,
            max_fee: args.max_fee,
        }),
    }
}

fn account_tx(args: InvokeTxArgs, kind: TransactionKind) -> AccountTransaction {
    AccountTransaction {
        tx_info: tx_info(args),
        kind,
        sender_balance_keys: balance_keys(felt(args.sender_address)),
    }
}

fn account_invoke_tx(args: InvokeTxArgs) -> AccountTransaction {
    account_tx(args, TransactionKind::Invoke)
}

struct NonceManager {
    next: u128,
}

impl NonceManager {
    fn default() -> Self {
        NonceManager { next: 0 }
    }

    fn next(&mut self) -> u128 {
        let n = self.next;
        self.next += 1;
        n
    }
}

struct Executed {
    info: TransactionExecutionInfo,
    layer: LayerHandle,
}

fn entry_error(e: EntryPointExecutionError) -> String {
    e.message().to_string()
}

/// Runs a transaction through its phases and leaves its layer on top of the state.
fn execute_raw(
    state: &mut State,
    block_context: &BlockContext,
    tx: &AccountTransaction,
    flags: ExecutionFlags,
    validate: Script,
    execute: Script,
) -> Result<Executed, TransactionExecutionError> {
    let (mut machine, mut action) = TransactionExecution::begin(tx, block_context, flags, state)?;
    let tx_context = machine.tx_context();
    if let Action::RunValidate { max_steps, initial_gas } = action {
        assert_eq!(machine.phase(), Phase::Received);
        let mut context = EntryPointExecutionContext::new_validate(&tx_context, flags.charge_fee)
            .with_gas_allotment(initial_gas);
        assert_eq!(context.remaining_steps(), max_steps);
        let result = validate(state, &mut context);
        let outcome = context.into_outcome(result.err());
        action = machine.on_validate(outcome, state)?;
    } else {
        drop(validate);
    }
    assert_eq!(machine.phase(), Phase::Validated);
    match action {
        Action::RunExecute { max_steps, initial_gas } => {
            let mut context = EntryPointExecutionContext::new_invoke(&tx_context, flags.charge_fee)
                .with_gas_allotment(initial_gas);
            assert_eq!(context.remaining_steps(), max_steps);
            let result = execute(state, &mut context);
            let outcome = context.into_outcome(result.err());
            machine.on_execute(outcome, state)?;
        }
        Action::RunValidate { .. } => unreachable!("validation ran already"),
    };
    assert_eq!(machine.phase(), Phase::Executed);
    let layer = machine.layer();
    let info = machine.finalize(state)?;
    Ok(Executed { info, layer })
}

/// Runs a transaction and merges what it changed into the state below it.
fn execute(
    state: &mut State,
    block_context: &BlockContext,
    tx: &AccountTransaction,
    charge_fee: bool,
    validate_flag: bool,
    validate: Script,
    execute: Script,
) -> Result<Executed, TransactionExecutionError> {
    let depth = state.depth();
    let flags = ExecutionFlags { charge_fee, validate: validate_flag, concurrency_mode: false };
    let result = execute_raw(state, block_context, tx, flags, validate, execute);
    match &result {
        Ok(done) => state.commit(done.layer).unwrap(),
        Err(_) => {}
    }
    assert_eq!(state.depth(), depth);
    result
}

/// An account that accepts every transaction.
fn validate_ok<'a>() -> Script<'a> {
    Box::new(|_state, context| {
        context.enter_call(TrackedResource::SierraGas).map_err(entry_error)?;
        context.consume_steps(VALIDATE_STEPS).map_err(entry_error)?;
        context.consume_gas(VALIDATE_STEPS as u64 * 100).map_err(entry_error)?;
        context.exit_call(false).map_err(entry_error)?;
        Ok(())
    })
}

/// An account whose validation grinds through `steps` steps.
fn validate_grind<'a>(steps: usize) -> Script<'a> {
    Box::new(move |_state, context| {
        context.enter_call(TrackedResource::SierraGas).map_err(entry_error)?;
        context.consume_steps(steps).map_err(entry_error)?;
        context.exit_call(false).map_err(entry_error)?;
        Ok(())
    })
}

/// An account that rejects every transaction.
fn validate_invalid<'a>() -> Script<'a> {
    Box::new(|_state, context| {
        context.enter_call(TrackedResource::SierraGas).map_err(entry_error)?;
        context.consume_steps(100).map_err(entry_error)?;
        Err("Invalid scenario".to_string())
    })
}

/// The account's `__execute__`, which calls `body` in the test contract.
fn call_contract<'a>(
    body: impl FnOnce(&mut State, &mut EntryPointExecutionContext) -> Result<(), String> + 'a,
) -> Script<'a> {
    Box::new(move |state, context| {
        context.enter_call(TrackedResource::SierraGas).map_err(entry_error)?;
        context.consume_steps(EXECUTE_OVERHEAD_STEPS).map_err(entry_error)?;
        context.consume_gas(EXECUTE_OVERHEAD_STEPS as u64 * 100).map_err(entry_error)?;
        context.enter_call(TrackedResource::SierraGas).map_err(entry_error)?;
        let result = body(state, context);
        match result {
            Ok(()) => {
                context.exit_call(false).map_err(entry_error)?;
                context.exit_call(false).map_err(entry_error)?;
                Ok(())
            }
            Err(message) => {
                let _ = context.exit_call(true);
                let _ = context.exit_call(true);
                Err(message)
            }
        }
    })
}

fn trivial_call<'a>() -> Script<'a> {
    call_contract(|_state, context| context.consume_steps(CALL_STEPS).map_err(entry_error))
}

/// `recurse(depth)`: recursion inside one call; with `fail`, the innermost level asserts false.
fn recurse<'a>(depth: usize, fail: bool) -> Script<'a> {
    call_contract(move |_state, context| {
        context.consume_steps(CALL_STEPS).map_err(entry_error)?;
        for _ in 0..depth {
            context.consume_steps(RECURSE_STEPS_PER_LEVEL).map_err(entry_error)?;
        }
        if fail {
            Err("recursive_fail: assertion failed".to_string())
        } else {
            Ok(())
        }
    })
}

/// `recursive_syscall(depth)`: each level is a call of its own.
fn recursive_syscall<'a>(depth: usize) -> Script<'a> {
    call_contract(move |_state, context| {
        let mut opened = 0;
        let mut failure = None;
        for _ in 0..depth {
            match context.enter_call(TrackedResource::CairoSteps) {
                Ok(_) => opened += 1,
                Err(e) => {
                    failure = Some(entry_error(e));
                    break;
                }
            }
            if let Err(e) = context.consume_steps(CALL_STEPS) {
                failure = Some(entry_error(e));
                break;
            }
        }
        for _ in 0..opened {
            let _ = context.exit_call(failure.is_some());
        }
        match failure {
            Some(message) => Err(message),
            None => Ok(()),
        }
    })
}

fn run_invoke_tx(
    state: &mut State,
    block_context: &BlockContext,
    args: InvokeTxArgs,
    body: Script,
) -> Result<TransactionExecutionInfo, TransactionExecutionError> {
    execute(state, block_context, &account_invoke_tx(args), true, true, validate_ok(), body)
        .map(|done| done.info)
}

fn total_charged_steps(info: &TransactionExecutionInfo) -> u64 {
    info.receipt.resources.computation.total_charged_steps().unwrap()
}

#[test]
fn test_circuit() {
    let block_context = block_context();
    let state = &mut test_state(BALANCE, &[ACCOUNT]);
    let mut nonce_manager = NonceManager::default();
    let info = run_invoke_tx(
        state,
        &block_context,
        InvokeTxArgs { nonce: nonce_manager.next(), ..Default::default() },
        call_contract(|_state, context| {
            context.consume_steps(CALL_STEPS).map_err(entry_error)?;
            context.count_builtin(BuiltinName::AddMod, 3);
            context.count_builtin(BuiltinName::MulMod, 2);
            Ok(())
        }),
    )
    .unwrap();
    assert!(info.revert_error.is_none());
}

#[test]
fn test_rc96_holes() {
    let block_context = block_context();
    let state = &mut test_state(BALANCE, &[ACCOUNT]);
    let mut nonce_manager = NonceManager::default();
    let info = run_invoke_tx(
        state,
        &block_context,
        InvokeTxArgs { nonce: nonce_manager.next(), ..Default::default() },
        call_contract(|_state, context| {
            context.consume_steps(CALL_STEPS).map_err(entry_error)?;
            context.count_builtin(BuiltinName::RangeCheck96, 24);
            Ok(())
        }),
    )
    .unwrap();
    assert!(!info.is_reverted());
    assert_eq!(
        info.receipt.resources.computation.vm_resources.builtin_count(BuiltinName::RangeCheck96),
        24
    );
}

#[test]
fn test_fee_enforcement() {
    for (version, gas_bounds_mode) in [
        (TransactionVersion::One, GasVectorComputationMode::NoL2Gas),
        (TransactionVersion::Three, GasVectorComputationMode::NoL2Gas),
        (TransactionVersion::Three, GasVectorComputationMode::All),
    ] {
        for zero_bounds in [true, false] {
            let block_context = block_context();
            // The deployed account is not funded.
            let state = &mut test_state(BALANCE, &[]);
            let resource_bounds = match gas_bounds_mode {
                GasVectorComputationMode::NoL2Gas => l1_resource_bounds(
                    if zero_bounds { 0 } else { DEFAULT_L1_GAS_AMOUNT },
                    DEFAULT_STRK_L1_GAS_PRICE,
                ),
                GasVectorComputationMode::All => create_all_resource_bounds(
                    if zero_bounds { 0 } else { DEFAULT_L1_GAS_AMOUNT },
                    DEFAULT_STRK_L1_GAS_PRICE,
                    if zero_bounds { 0 } else { DEFAULT_L2_GAS_MAX_AMOUNT },
                    DEFAULT_STRK_L2_GAS_PRICE,
                    if zero_bounds { 0 } else { DEFAULT_L1_DATA_GAS_MAX_AMOUNT },
                    DEFAULT_STRK_L1_DATA_GAS_PRICE,
                ),
            };
            let deploy_account_tx = account_tx(
                InvokeTxArgs {
                    max_fee: if zero_bounds { 0 } else { MAX_FEE },
                    resource_bounds,
                    version,
                    ..Default::default()
                },
                TransactionKind::DeployAccount {
                    contract_address: felt(ACCOUNT),
                    class_hash: felt(0x77),
                },
            );
            let enforce_fee = deploy_account_tx.create_tx_info().enforce_fee();
            assert_ne!(zero_bounds, enforce_fee);
            let result = execute(
                state,
                &block_context,
                &deploy_account_tx,
                enforce_fee,
                true,
                validate_ok(),
                trivial_call(),
            );
            // Execution should fail if the fee is enforced because the account doesn't have
            // sufficient balance.
            assert_eq!(result.is_err(), enforce_fee, "{:?}", result.err().map(|e| e.message()));
        }
    }
}

#[test]
fn test_all_bounds_combinations_enforce_fee() {
    for l1_gas_bound in [0_u64, 1] {
        for l1_data_gas_bound in [0_u64, 1] {
            for l2_gas_bound in [0_u64, 1] {
                let expected_enforce_fee = l1_gas_bound + l1_data_gas_bound + l2_gas_bound > 0;
                let account_tx = account_invoke_tx(InvokeTxArgs {
                    version: TransactionVersion::Three,
                    resource_bounds: create_all_resource_bounds(
                        l1_gas_bound,
                        DEFAULT_STRK_L1_GAS_PRICE,
                        l2_gas_bound,
                        DEFAULT_STRK_L2_GAS_PRICE,
                        l1_data_gas_bound,
                        DEFAULT_STRK_L1_DATA_GAS_PRICE,
                    ),
                    ..Default::default()
                });
                assert_eq!(account_tx.create_tx_info().enforce_fee(), expected_enforce_fee);
            }
        }
    }
}

/// The failures of the check for the given case, as messages.
fn fee_check_failures(positive_flow: bool, deprecated_tx: bool) -> Vec<String> {
    let block_context = block_context();
    let actual_fee_offset: u128 = if positive_flow { 0 } else { 1 };
    let mut failures = Vec::new();
    if deprecated_tx {
        let max_fee = 100;
        let tx = account_invoke_tx(InvokeTxArgs {
            max_fee,
            version: TransactionVersion::One,
            ..Default::default()
        });
        let context = block_context.to_tx_context(tx.tx_info, tx.sender_balance_keys);
        match check_actual_fee_in_bounds(&context, max_fee + actual_fee_offset) {
            Ok(()) => assert_actual_fee_in_bounds(&context, max_fee + actual_fee_offset),
            Err(e) => failures.push(e.message()),
        }
    } else {
        // All resources.
        let l1_gas = ResourceBounds { max_amount: 2, max_price_per_unit: 3 };
        let l2_gas = ResourceBounds { max_amount: 4, max_price_per_unit: 5 };
        let l1_data_gas = ResourceBounds { max_amount: 6, max_price_per_unit: 7 };
        let all_resource_bounds =
            ValidResourceBounds::AllResources(AllResourceBounds { l1_gas, l2_gas, l1_data_gas });
        let all_resource_fee = (l1_gas.max_amount as u128)
            .checked_mul(l1_gas.max_price_per_unit)
            .unwrap()
            + (l2_gas.max_amount as u128).checked_mul(l2_gas.max_price_per_unit).unwrap()
            + (l1_data_gas.max_amount as u128).checked_mul(l1_data_gas.max_price_per_unit).unwrap()
            + actual_fee_offset;

        // L1 resources.
        let l1_resource_bounds = ValidResourceBounds::L1Gas(l1_gas);
        let l1_resource_fee =
            (l1_gas.max_amount as u128).checked_mul(l1_gas.max_price_per_unit).unwrap()
                + actual_fee_offset;

        for (bounds, actual_fee) in
            [(all_resource_bounds, all_resource_fee), (l1_resource_bounds, l1_resource_fee)]
        {
            let tx = account_invoke_tx(InvokeTxArgs {
                resource_bounds: bounds,
                version: TransactionVersion::Three,
                ..Default::default()
            });
            let context = block_context.to_tx_context(tx.tx_info, tx.sender_balance_keys);
            match check_actual_fee_in_bounds(&context, actual_fee) {
                Ok(()) => assert_actual_fee_in_bounds(&context, actual_fee),
                Err(e) => failures.push(e.message()),
            }
        }
    }
    failures
}

#[test]
fn test_assert_actual_fee_in_bounds() {
    // Positive cases: a fee at the bound passes.
    assert!(fee_check_failures(true, true).is_empty());
    assert!(fee_check_failures(true, false).is_empty());
    // Negative cases: a fee of one more fails, and the message says against what.
    let failures = fee_check_failures(false, true);
    assert_eq!(failures.len(), 1);
    assert!(failures[0].contains("exceeded bounds; max fee is"));
    assert_eq!(failures[0], "Actual fee 101 exceeded bounds; max fee is 100.");
    let failures = fee_check_failures(false, false);
    assert_eq!(failures.len(), 2);
    for failure in &failures {
        assert!(failure.contains("exceeded bounds; max possible fee is"));
    }
    assert_eq!(failures[0], "Actual fee 69 exceeded bounds; max possible fee is 68.");
    assert_eq!(failures[1], "Actual fee 7 exceeded bounds; max possible fee is 6.");
}

#[test]
fn test_account_flow_test() {
    for (tx_version, resource_bounds) in [
        (TransactionVersion::Zero, default_all_resource_bounds()),
        (TransactionVersion::One, default_all_resource_bounds()),
        (TransactionVersion::Three, default_l1_resource_bounds()),
        (TransactionVersion::Three, default_all_resource_bounds()),
    ] {
        for only_query in [true, false] {
            let block_context = block_context();
            let mut state = test_state(BALANCE, &[ACCOUNT]);
            let mut nonce_manager = NonceManager::default();
            // Invoke a function from the newly deployed contract.
            run_invoke_tx(
                &mut state,
                &block_context,
                InvokeTxArgs {
                    max_fee: MAX_FEE,
                    sender_address: ACCOUNT,
                    version: tx_version,
                    resource_bounds,
                    nonce: nonce_manager.next(),
                    only_query,
                },
                trivial_call(),
            )
            .unwrap();
        }
    }
}

#[test]
fn test_invoke_tx_from_non_deployed_account() {
    for tx_version in [TransactionVersion::Zero, TransactionVersion::One, TransactionVersion::Three]
    {
        let block_context = block_context();
        let mut state = test_state(BALANCE, &[ACCOUNT]);
        let mut nonce_manager = NonceManager::default();
        let tx_result = run_invoke_tx(
            &mut state,
            &block_context,
            InvokeTxArgs {
                max_fee: MAX_FEE,
                sender_address: ACCOUNT,
                resource_bounds: default_all_resource_bounds(),
                version: tx_version,
                nonce: nonce_manager.next(),
                only_query: false,
            },
            call_contract(|state, _context| {
                // The called address holds no contract.
                let class_hash = state.get_class_hash_at(felt(2));
                if class_hash.is_zero() {
                    Err("Requested contract address 0x2 is not deployed.".to_string())
                } else {
                    Ok(())
                }
            }),
        );
        let expected_error = "is not deployed.";
        match tx_result {
            Ok(info) => {
                //  Make sure the error is because the account wasn't deployed.
                assert!(info.revert_error.is_some_and(|err_str| err_str.contains(expected_error)));
            }
            Err(err) => {
                //  Make sure the error is because the account wasn't deployed.
                assert!(err.message().contains(expected_error));
                // We expect to get an error only when tx_version is 0, on other versions to revert.
                assert_eq!(tx_version, TransactionVersion::Zero);
            }
        }
    }
}

#[test]
fn test_infinite_recursion() {
    for success in [true, false] {
        for normal_recurse in [true, false] {
            for resource_bounds in [default_l1_resource_bounds(), default_all_resource_bounds()] {
                let mut block_context = block_context();
                // Limit the number of execution steps (so we quickly hit the limit).
                block_context.versioned_constants.invoke_tx_max_n_steps = 4200;
                // Deep chains of calls are let through here: the steps are what runs out.
                block_context.versioned_constants.max_recursion_depth = 2000;
                let mut state = test_state(BALANCE, &[ACCOUNT]);
                let mut nonce_manager = NonceManager::default();
                let recursion_depth = if success { 3 } else { 1000 };
                let body = if normal_recurse {
                    recurse(recursion_depth, false)
                } else {
                    recursive_syscall(recursion_depth)
                };
                let info = run_invoke_tx(
                    &mut state,
                    &block_context,
                    InvokeTxArgs {
                        resource_bounds,
                        sender_address: ACCOUNT,
                        nonce: nonce_manager.next(),
                        ..Default::default()
                    },
                    body,
                )
                .unwrap();
                if success {
                    assert!(info.revert_error.is_none());
                } else {
                    assert!(info
                        .revert_error
                        .unwrap()
                        .contains("RunResources has no remaining steps."));
                }
            }
        }
    }
}

/// Tests that validation fails on insufficient steps if max fee is too low.
#[test]
fn test_max_fee_limit_validate() {
    for (version, resource_bounds) in [
        (TransactionVersion::One, default_l1_resource_bounds()),
        (TransactionVersion::Three, default_l1_resource_bounds()),
        (TransactionVersion::Three, default_all_resource_bounds()),
    ] {
        for use_kzg_da in [true, false] {
            let mut block_context = block_context();
            block_context.block_info.use_kzg_da = use_kzg_da;
            let mut state = test_state(BALANCE, &[ACCOUNT]);
            let mut nonce_manager = NonceManager::default();
            let grindy_class_hash = felt(0x9999);
            let grindy_account: u128 = 0x5001;

            // Declare the grindy-validation account.
            let declare = account_tx(
                InvokeTxArgs {
                    resource_bounds,
                    version,
                    nonce: nonce_manager.next(),
                    ..Default::default()
                },
                TransactionKind::Declare {
                    class_hash: grindy_class_hash,
                    compiled_class_hash: felt(0x99990),
                },
            );
            execute(
                &mut state,
                &block_context,
                &declare,
                true,
                true,
                validate_ok(),
                Box::new(|_, _| Ok(())),
            )
            .unwrap();
            assert!(state.is_declared(grindy_class_hash));

            // Deploy grindy account with a lot of grind in the constructor.
            // Expect this to fail without bumping nonce.
            // We want to test the block step bounds here - so set them to something low.
            fund_account(&mut state, felt(grindy_account), BALANCE);
            let old_validate_max_n_steps = block_context.versioned_constants.validate_max_n_steps;
            let old_invoke_max_n_steps = block_context.versioned_constants.invoke_tx_max_n_steps;
            block_context.versioned_constants.validate_max_n_steps = 1000;
            block_context.versioned_constants.invoke_tx_max_n_steps = 1000;
            let deploy = account_tx(
                InvokeTxArgs {
                    resource_bounds,
                    version,
                    sender_address: grindy_account,
                    nonce: 0,
                    ..Default::default()
                },
                TransactionKind::DeployAccount {
                    contract_address: felt(grindy_account),
                    class_hash: grindy_class_hash,
                },
            );
            let error_trace = execute(
                &mut state,
                &block_context,
                &deploy,
                true,
                true,
                validate_grind(100),
                call_contract(|_state, context| {
                    context.consume_steps(1_000_000).map_err(entry_error)
                }),
            )
            .err()
            .unwrap()
            .message();
            assert!(error_trace.contains("no remaining steps"));
            assert_eq!(state.get_nonce_at(felt(grindy_account)), felt(0));
            block_context.versioned_constants.validate_max_n_steps = old_validate_max_n_steps;
            block_context.versioned_constants.invoke_tx_max_n_steps = old_invoke_max_n_steps;

            // Deploy grindy account successfully this time.
            execute(
                &mut state,
                &block_context,
                &deploy,
                true,
                true,
                validate_grind(100),
                trivial_call(),
            )
            .unwrap();
            assert_eq!(state.get_class_hash_at(felt(grindy_account)), grindy_class_hash);

            // Invoke a function that grinds validate; set bounds low enough to fail on this
            // grind. To ensure bounds are low enough, set them to a small amount of gas.
            let small_gas: u64 = 2;
            let tight_bounds = match resource_bounds.get_gas_vector_computation_mode() {
                GasVectorComputationMode::NoL2Gas => {
                    l1_resource_bounds(small_gas, DEFAULT_STRK_L1_GAS_PRICE)
                }
                GasVectorComputationMode::All => create_all_resource_bounds(
                    small_gas,
                    DEFAULT_STRK_L1_GAS_PRICE,
                    small_gas * 100,
                    DEFAULT_STRK_L2_GAS_PRICE,
                    small_gas,
                    DEFAULT_STRK_L1_DATA_GAS_PRICE,
                ),
            };
            // Make sure the resource bounds are the limiting factor by blowing up the block bounds.
            block_context.versioned_constants.validate_max_n_steps = u32::MAX;
            let invoke = account_invoke_tx(InvokeTxArgs {
                max_fee: small_gas as u128 * DEFAULT_ETH_L1_GAS_PRICE,
                resource_bounds: tight_bounds,
                sender_address: grindy_account,
                version,
                nonce: 1,
                only_query: false,
            });
            let error_trace = execute(
                &mut state,
                &block_context,
                &invoke,
                true,
                true,
                validate_grind(1_000_000),
                trivial_call(),
            )
            .err()
            .unwrap()
            .message();
            assert!(error_trace.contains("no remaining steps") | error_trace.contains("Out of gas"));
        }
    }
}

#[test]
fn test_recursion_depth_exceeded() {
    for (tx_version, resource_bounds) in [
        (TransactionVersion::One, default_all_resource_bounds()),
        (TransactionVersion::Three, default_l1_resource_bounds()),
        (TransactionVersion::Three, default_all_resource_bounds()),
    ] {
        let block_context = block_context();
        let mut state = test_state(BALANCE, &[ACCOUNT]);
        let mut nonce_manager = NonceManager::default();

        // Positive test

        // The maximum inner recursion depth is reduced by 2 from the global entry point limit:
        // the account's own call and the first call of the contract come before the recursion.
        let max_inner_recursion_depth = block_context.versioned_constants.max_recursion_depth - 2;
        let invoke_args = InvokeTxArgs {
            max_fee: MAX_FEE,
            sender_address: ACCOUNT,
            version: tx_version,
            nonce: nonce_manager.next(),
            resource_bounds,
            only_query: false,
        };
        let info = run_invoke_tx(
            &mut state,
            &block_context,
            invoke_args,
            recursive_syscall(max_inner_recursion_depth),
        );
        assert!(info.unwrap().revert_error.is_none());

        // Negative test

        let exceeding_recursion_depth = max_inner_recursion_depth + 1;
        let invoke_args = InvokeTxArgs { nonce: nonce_manager.next(), ..invoke_args };
        let info = run_invoke_tx(
            &mut state,
            &block_context,
            invoke_args,
            recursive_syscall(exceeding_recursion_depth),
        );
        assert!(info.unwrap().revert_error.unwrap().contains("recursion depth exceeded"));
    }
}

/// Tests that an account invoke transaction that fails the execution phase, still incurs a nonce
/// increase and a fee deduction.
#[test]
fn test_revert_invoke() {
    for (transaction_version, fee_type) in
        [(TransactionVersion::One, FeeType::Eth), (TransactionVersion::Three, FeeType::Strk)]
    {
        let block_context = block_context();
        let state = &mut test_state(BALANCE, &[ACCOUNT]);
        let mut nonce_manager = NonceManager::default();

        // Invoke a function that changes the state and reverts.
        let storage_key = felt(9);
        let info = run_invoke_tx(
            state,
            &block_context,
            InvokeTxArgs {
                max_fee: MAX_FEE,
                resource_bounds: default_all_resource_bounds(),
                sender_address: ACCOUNT,
                version: transaction_version,
                nonce: nonce_manager.next(),
                only_query: false,
            },
            call_contract(move |state, context| {
                context.consume_steps(CALL_STEPS).map_err(entry_error)?;
                // Write some non-zero value.
                state.set_storage_at(felt(TEST_CONTRACT), storage_key, felt(99));
                Err("write_and_revert: assertion failed".to_string())
            }),
        )
        .unwrap();

        // Check that the transaction was reverted.
        assert!(info.revert_error.is_some());
        assert_eq!(info.final_phase, Phase::RevertedButCharged);

        // Check that the nonce was increased and the fee was deducted.
        assert_eq!(
            get_fee_token_balance(
                state,
                felt(ACCOUNT),
                block_context.chain_info.fee_token_address(fee_type)
            ),
            (felt(BALANCE - info.receipt.fee), felt(0))
        );
        assert_eq!(state.get_nonce_at(felt(ACCOUNT)), felt(nonce_manager.next()));

        // Check that reverted steps are taken into account.
        assert!(info.receipt.resources.computation.n_reverted_steps > 0);

        // Check that execution state changes were reverted.
        assert_eq!(felt(0), state.get_storage_at(felt(TEST_CONTRACT), storage_key));
    }
}

/// Tests that failing account deployment should not change state (no fee charge or nonce bump).
#[test]
fn test_fail_deploy_account() {
    for tx_version in [TransactionVersion::One, TransactionVersion::Three] {
        let block_context = block_context();
        let state = &mut test_state(BALANCE, &[]);
        let deploy_address: u128 = 0x6001;

        // Create and execute (failing) deploy account transaction.
        let deploy_account_tx = account_tx(
            InvokeTxArgs {
                max_fee: BALANCE,
                resource_bounds: default_l1_resource_bounds(),
                sender_address: deploy_address,
                version: tx_version,
                nonce: 0,
                only_query: false,
            },
            TransactionKind::DeployAccount {
                contract_address: felt(deploy_address),
                class_hash: felt(0x88),
            },
        );
        let fee_token_address =
            block_context.chain_info.fee_token_address(deploy_account_tx.fee_type());
        fund_account(state, felt(deploy_address), BALANCE * 2);

        let initial_balance = get_fee_token_balance(state, felt(deploy_address), fee_token_address);

        let error = execute(
            state,
            &block_context,
            &deploy_account_tx,
            true,
            true,
            validate_invalid(),
            trivial_call(),
        )
        .err()
        .unwrap();
        // Check the error is as expected. Assure the error message is not nonce or fee related.
        assert!(matches!(error, TransactionExecutionError::ValidateTransactionError { .. }));
        assert!(error.message().contains("Invalid scenario"));

        // Assert nonce and balance are unchanged, and that no contract was deployed at the
        // address.
        assert_eq!(state.get_nonce_at(felt(deploy_address)), felt(0));
        assert_eq!(
            get_fee_token_balance(state, felt(deploy_address), fee_token_address),
            initial_balance
        );
        assert_eq!(state.get_class_hash_at(felt(deploy_address)), felt(0));
    }
}

/// Tests that a failing declare transaction should not change state (no fee charge or nonce bump).
#[test]
fn test_fail_declare() {
    let block_context = block_context();
    let mut state = test_state(BALANCE, &[ACCOUNT]);
    let mut nonce_manager = NonceManager::default();
    let class_hash = felt(0xdeadeadeaf72);
    let next_nonce = nonce_manager.next();

    // Cannot fail executing a declare tx unless it's V2 or above, and already declared.
    state.set_declared(class_hash);
    state.set_compiled_class_hash(class_hash, felt(0));
    let declare_account_tx = account_tx(
        InvokeTxArgs {
            max_fee: MAX_FEE,
            sender_address: ACCOUNT,
            version: TransactionVersion::Two,
            nonce: next_nonce,
            ..Default::default()
        },
        TransactionKind::Declare { class_hash, compiled_class_hash: felt(0) },
    );

    // Fail execution, assert nonce and balance are unchanged.
    let tx_info = declare_account_tx.create_tx_info();
    let token = block_context.chain_info.fee_token_address(tx_info.fee_type());
    let initial_balance = get_fee_token_balance(&mut state, felt(ACCOUNT), token);
    let error = execute(
        &mut state,
        &block_context,
        &declare_account_tx,
        true,
        true,
        validate_ok(),
        Box::new(|_, _| Ok(())),
    )
    .err()
    .unwrap();
    assert_eq!(error, TransactionExecutionError::ClassAlreadyDeclared { class_hash });

    assert_eq!(state.get_nonce_at(felt(ACCOUNT)), felt(next_nonce));
    assert_eq!(get_fee_token_balance(&mut state, felt(ACCOUNT), token), initial_balance);
}

/// Tests that reverted transactions are charged more fee and steps than their (recursive) prefix
/// successful counterparts.
/// In this test reverted transactions are valid function calls that got insufficient steps limit.
#[test]
fn test_reverted_reach_steps_limit() {
    for (version, resource_bounds) in [
        (TransactionVersion::One, default_all_resource_bounds()),
        (TransactionVersion::Three, default_l1_resource_bounds()),
        (TransactionVersion::Three, default_all_resource_bounds()),
    ] {
        let mut block_context = block_context();
        let mut state = test_state(BALANCE, &[ACCOUNT]);
        let mut nonce_manager = NonceManager::default();

        // Limit the number of execution steps (so we quickly hit the limit).
        block_context.versioned_constants.invoke_tx_max_n_steps = 6000;
        let recursion_base_args = InvokeTxArgs {
            max_fee: MAX_FEE,
            resource_bounds,
            sender_address: ACCOUNT,
            version,
            nonce: 0,
            only_query: false,
        };

        // Invoke the `recurse` function with 0 iterations. This call should succeed.
        let result = run_invoke_tx(
            &mut state,
            &block_context,
            InvokeTxArgs { nonce: nonce_manager.next(), ..recursion_base_args },
            recurse(0, false),
        )
        .unwrap();
        let n_steps_0 = total_charged_steps(&result);
        let actual_fee_0 = result.receipt.fee;
        // Ensure the transaction was not reverted.
        assert!(!result.is_reverted());

        // Invoke the `recurse` function with 1 iteration. This call should succeed.
        let result = run_invoke_tx(
            &mut state,
            &block_context,
            InvokeTxArgs { nonce: nonce_manager.next(), ..recursion_base_args },
            recurse(1, false),
        )
        .unwrap();
        let n_steps_1 = total_charged_steps(&result);
        let actual_fee_1 = result.receipt.fee;
        // Ensure the transaction was not reverted.
        assert!(!result.is_reverted());

        // Make sure that the n_steps and actual_fee are higher as the recursion depth increases.
        assert!(n_steps_1 > n_steps_0);
        assert!(actual_fee_1 > actual_fee_0);

        // Calculate a recursion depth where the transaction will surely fail (not a minimal
        // depth, as base costs are neglected here).
        let steps_diff = n_steps_1 - n_steps_0;
        let steps_diff_as_u32: u32 = steps_diff.try_into().expect("Failed to convert to u32.");
        let fail_depth = block_context.versioned_constants.invoke_tx_max_n_steps / steps_diff_as_u32;

        // Invoke the `recurse` function with `fail_depth` iterations. This call should fail.
        let result = run_invoke_tx(
            &mut state,
            &block_context,
            InvokeTxArgs { nonce: nonce_manager.next(), ..recursion_base_args },
            recurse(fail_depth as usize, false),
        )
        .unwrap();
        let n_steps_fail = total_charged_steps(&result);
        let actual_fee_fail: u128 = result.receipt.fee;
        // Ensure the transaction was reverted.
        assert!(result.is_reverted());

        // Make sure that the failed transaction gets charged for the extra steps taken, compared
        // with the smaller valid transaction.
        assert!(n_steps_fail > n_steps_1);
        assert!(actual_fee_fail > actual_fee_1);

        // Invoke the `recurse` function with `fail_depth`+1 iterations. This call should fail.
        let result = run_invoke_tx(
            &mut state,
            &block_context,
            InvokeTxArgs { nonce: nonce_manager.next(), ..recursion_base_args },
            recurse(fail_depth as usize + 1, false),
        )
        .unwrap();
        let n_steps_fail_next = total_charged_steps(&result);
        let actual_fee_fail_next: u128 = result.receipt.fee;
        // Ensure the transaction was reverted.
        assert!(result.is_reverted());

        // Test that the two reverted transactions behave the same.
        assert!(n_steps_fail == n_steps_fail_next);
        assert!(actual_fee_fail == actual_fee_fail_next);
    }
}

/// Tests that n_steps and actual_fees of reverted transactions invocations are consistent.
/// In this test reverted transactions are recursive function invocations where the innermost call
/// asserts false. We test deltas between consecutive depths, and further depths.
#[test]
fn test_n_reverted_steps() {
    for resource_bounds in [default_l1_resource_bounds(), default_all_resource_bounds()] {
        let block_context = block_context();
        let mut state = test_state(BALANCE, &[ACCOUNT]);
        let mut nonce_manager = NonceManager::default();
        let recursion_base_args =
            InvokeTxArgs { resource_bounds, sender_address: ACCOUNT, ..Default::default() };

        // Invoke the `recursive_fail` function with 0 iterations. This call should fail.
        let result = run_invoke_tx(
            &mut state,
            &block_context,
            InvokeTxArgs { nonce: nonce_manager.next(), ..recursion_base_args },
            recurse(0, true),
        )
        .unwrap();
        // Ensure the transaction was reverted.
        assert!(result.is_reverted());
        let mut actual_resources_0 = result.receipt.resources.computation;
        let n_steps_0 = total_charged_steps(&result);
        let actual_fee_0 = result.receipt.fee;

        // Invoke the `recursive_fail` function with 1 iterations. This call should fail.
        let result = run_invoke_tx(
            &mut state,
            &block_context,
            InvokeTxArgs { nonce: nonce_manager.next(), ..recursion_base_args },
            recurse(1, true),
        )
        .unwrap();
        // Ensure the transaction was reverted.
        assert!(result.is_reverted());
        let actual_resources_1 = result.receipt.resources.computation;
        let n_steps_1 = total_charged_steps(&result);
        let actual_fee_1 = result.receipt.fee;

        // Invoke the `recursive_fail` function with 2 iterations. This call should fail.
        let result = run_invoke_tx(
            &mut state,
            &block_context,
            InvokeTxArgs { nonce: nonce_manager.next(), ..recursion_base_args },
            recurse(2, true),
        )
        .unwrap();
        let n_steps_2 = total_charged_steps(&result);
        let actual_fee_2 = result.receipt.fee;
        // Ensure the transaction was reverted.
        assert!(result.is_reverted());

        // Make sure that n_steps and actual_fee diffs are the same for two consecutive reverted
        // calls.
        assert!(n_steps_1 - n_steps_0 == n_steps_2 - n_steps_1);
        assert!(actual_fee_1 - actual_fee_0 == actual_fee_2 - actual_fee_1);

        // Save the delta between two consecutive calls to be tested against a much larger
        // recursion.
        let single_call_steps_delta = n_steps_1 - n_steps_0;
        let single_call_fee_delta = actual_fee_1 - actual_fee_0;
        assert!(single_call_steps_delta > 0);
        assert!(single_call_fee_delta > 0);

        // Make sure the resources in block of invocation 0 and 1 are the same, except for the
        // number of cairo steps.
        actual_resources_0.n_reverted_steps += single_call_steps_delta;
        assert_eq!(actual_resources_0, actual_resources_1);

        // Invoke the `recursive_fail` function with 100 iterations. This call should fail.
        let result = run_invoke_tx(
            &mut state,
            &block_context,
            InvokeTxArgs { nonce: nonce_manager.next(), ..recursion_base_args },
            recurse(100, true),
        )
        .unwrap();
        let n_steps_100 = total_charged_steps(&result);
        let actual_fee_100 = result.receipt.fee;
        // Ensure the transaction was reverted.
        assert!(result.is_reverted());

        // Make sure that n_steps and actual_fee grew as expected.
        assert!(n_steps_100 - n_steps_0 == 100 * single_call_steps_delta);
        assert!(actual_fee_100 - actual_fee_0 == 100 * single_call_fee_delta);
    }
}

fn max_steps_of(block_context: &BlockContext, tx: &AccountTransaction) -> u64 {
    let tx_context = block_context.to_tx_context(tx.tx_info, tx.sender_balance_keys);
    let execution_context = EntryPointExecutionContext::new_invoke(&tx_context, true);
    u64::try_from(execution_context.remaining_steps()).unwrap()
}

#[test]
fn test_max_fee_computation_from_tx_bounds() {
    let block_context = block_context();

    // V1 transaction: limit based on max fee.
    // Convert max fee to L1 gas units, and then to steps.
    let max_fee = 100;
    let account_tx_max_fee = account_invoke_tx(InvokeTxArgs {
        max_fee,
        version: TransactionVersion::One,
        ..Default::default()
    });
    let step_cost = block_context.versioned_constants.gas_costs.vm_resource_fee_cost.n_steps;
    let steps_per_l1_gas = (step_cost.denom() / step_cost.numer()) as u64;
    assert_eq!(steps_per_l1_gas, 400);
    let l1_gas_price = block_context.block_info.gas_prices.get_l1_gas_price_by_fee_type(FeeType::Eth);
    assert_eq!(
        max_steps_of(&block_context, &account_tx_max_fee),
        steps_per_l1_gas * u64::try_from(max_fee / l1_gas_price).unwrap(),
    );

    // V3 transaction: limit based on L1 gas bounds.
    // Convert L1 gas units to steps.
    let l1_gas_bound = 200_u64;
    let account_tx_l1_bounds = account_invoke_tx(InvokeTxArgs {
        resource_bounds: l1_resource_bounds(l1_gas_bound, 1),
        version: TransactionVersion::Three,
        ..Default::default()
    });
    assert_eq!(max_steps_of(&block_context, &account_tx_l1_bounds), steps_per_l1_gas * l1_gas_bound);
    assert_eq!(max_steps_of(&block_context, &account_tx_l1_bounds), 80_000);

    // V3 transaction: limit based on L2 gas bounds (all resource_bounds).
    // Convert L2 gas units to steps.
    let l2_gas_bound = 300_u64;
    let zero = ResourceBounds { max_amount: 0, max_price_per_unit: 0 };
    let account_tx_l2_bounds = account_invoke_tx(InvokeTxArgs {
        resource_bounds: ValidResourceBounds::AllResources(AllResourceBounds {
            l1_gas: zero,
            l2_gas: ResourceBounds {
                max_amount: l2_gas_bound,
                max_price_per_unit: DEFAULT_STRK_L2_GAS_PRICE,
            },
            l1_data_gas: zero,
        }),
        version: TransactionVersion::Three,
        ..Default::default()
    });
    assert_eq!(
        max_steps_of(&block_context, &account_tx_l2_bounds),
        l2_gas_bound
            / block_context.versioned_constants.gas_costs.l2_gas_costs.step_gas_cost as u64,
    );
    assert_eq!(max_steps_of(&block_context, &account_tx_l2_bounds), 3);
}

/// Tests that steps are correctly limited based on max_fee.
#[test]
fn test_max_fee_to_max_steps_conversion() {
    for version in [TransactionVersion::One, TransactionVersion::Three] {
        let block_context = block_context();
        let mut state = test_state(BALANCE, &[ACCOUNT]);
        let mut nonce_manager = NonceManager::default();
        // The steps of validation, of the account's own call and of the called function, at 400
        // steps per unit of gas, and the cost of publishing a nonce and a balance.
        let steps = (VALIDATE_STEPS + EXECUTE_OVERHEAD_STEPS + CALL_STEPS) as u64;
        let da_gas: u64 = (2 * 1 + 2 * 1) * 612 - 300 - 240;
        let actual_gas_used: u64 = steps.div_ceil(400) + da_gas;
        assert_eq!(actual_gas_used, 7 + 1908);
        let actual_fee = u128::from(actual_gas_used) * 100000000000;
        let actual_strk_gas_price =
            block_context.block_info.gas_prices.get_l1_gas_price_by_fee_type(FeeType::Strk);

        // First invocation of `with_arg` gets the exact pre-calculated actual fee as max_fee.
        let account_tx1 = account_invoke_tx(InvokeTxArgs {
            max_fee: actual_fee,
            sender_address: ACCOUNT,
            version,
            resource_bounds: l1_resource_bounds(actual_gas_used, actual_strk_gas_price),
            nonce: nonce_manager.next(),
            only_query: false,
        });
        let max_steps_limit1 = max_steps_of(&block_context, &account_tx1);
        let tx_execution_info1 = execute(
            &mut state,
            &block_context,
            &account_tx1,
            true,
            true,
            validate_ok(),
            trivial_call(),
        )
        .unwrap()
        .info;
        let n_steps1 = tx_execution_info1.receipt.resources.computation.vm_resources.n_steps;
        let gas_used_vector1 = tx_execution_info1
            .receipt
            .resources
            .to_gas_vector(
                &block_context.versioned_constants.gas_costs,
                block_context.block_info.use_kzg_da,
                GasVectorComputationMode::NoL2Gas,
            )
            .unwrap();

        // Second invocation of `with_arg` gets twice the pre-calculated actual fee as max_fee.
        let account_tx2 = account_invoke_tx(InvokeTxArgs {
            max_fee: 2 * actual_fee,
            sender_address: ACCOUNT,
            version,
            resource_bounds: l1_resource_bounds(2 * actual_gas_used, actual_strk_gas_price),
            nonce: nonce_manager.next(),
            only_query: false,
        });
        let max_steps_limit2 = max_steps_of(&block_context, &account_tx2);
        let tx_execution_info2 = execute(
            &mut state,
            &block_context,
            &account_tx2,
            true,
            true,
            validate_ok(),
            trivial_call(),
        )
        .unwrap()
        .info;
        let n_steps2 = tx_execution_info2.receipt.resources.computation.vm_resources.n_steps;
        let gas_used_vector2 = tx_execution_info2
            .receipt
            .resources
            .to_gas_vector(
                &block_context.versioned_constants.gas_costs,
                block_context.block_info.use_kzg_da,
                GasVectorComputationMode::NoL2Gas,
            )
            .unwrap();

        // Test that steps limit doubles as max_fee doubles, but actual consumed steps and fee
        // remains.
        assert_eq!(max_steps_limit2, 2 * max_steps_limit1);
        assert_eq!(tx_execution_info1.receipt.fee, tx_execution_info2.receipt.fee);
        assert_eq!(actual_gas_used, gas_used_vector2.l1_gas);
        assert_eq!(actual_fee, tx_execution_info2.receipt.fee);
        assert_eq!(n_steps1, n_steps2);
        assert_eq!(gas_used_vector1, gas_used_vector2);
    }
}

/// Tests that transactions with insufficient max_fee are reverted, the correct revert_error is
/// recorded and max_fee is charged.
#[test]
fn test_insufficient_max_fee_reverts() {
    for resource_bounds in [default_l1_resource_bounds(), default_all_resource_bounds()] {
        let block_context = block_context();
        let gas_mode = resource_bounds.get_gas_vector_computation_mode();
        let mut state = test_state(BALANCE, &[ACCOUNT]);
        let mut nonce_manager = NonceManager::default();
        let recursion_base_args = InvokeTxArgs { sender_address: ACCOUNT, ..Default::default() };

        // Invoke the `recurse` function with depth 1 and MAX_FEE. This call should succeed.
        let tx_execution_info1 = run_invoke_tx(
            &mut state,
            &block_context,
            InvokeTxArgs { resource_bounds, nonce: nonce_manager.next(), ..recursion_base_args },
            recurse(1, false),
        )
        .unwrap();
        assert!(!tx_execution_info1.is_reverted());

        // Invoke the `recurse` function with depth of 2 and the actual gas usage of depth 1 as
        // the resource bounds. This call should fail in post-execution due to insufficient max
        // gas (steps bound based on the resource bounds are not so tight as to stop execution
        // between iterations 1 and 2).
        let strk_prices = block_context.block_info.gas_prices.get_gas_prices_by_fee_type(FeeType::Strk);
        let resource_used_depth1 = match gas_mode {
            GasVectorComputationMode::NoL2Gas => l1_resource_bounds(
                tx_execution_info1.receipt.gas.l1_gas,
                block_context.block_info.gas_prices.get_l1_gas_price_by_fee_type(FeeType::Strk),
            ),
            GasVectorComputationMode::All => ValidResourceBounds::all_bounds_from_vectors(
                &tx_execution_info1.receipt.gas,
                &strk_prices,
            ),
        };
        let tx_execution_info2 = run_invoke_tx(
            &mut state,
            &block_context,
            InvokeTxArgs {
                resource_bounds: resource_used_depth1,
                nonce: nonce_manager.next(),
                ..recursion_base_args
            },
            recurse(2, false),
        )
        .unwrap();
        // The expected revert fee is the same as the fee of depth 1 (snap to bounds on
        // post-execution error).
        let overdraft_resource = match gas_mode {
            GasVectorComputationMode::NoL2Gas => Resource::L1Gas,
            GasVectorComputationMode::All => Resource::L2Gas,
        };
        assert!(tx_execution_info2.is_reverted());
        // DA costs should be identical, regardless of bounds; as should the final fee (computed
        // by snapping to bounds).
        assert_eq!(tx_execution_info2.receipt.da_gas, tx_execution_info1.receipt.da_gas);
        assert_eq!(tx_execution_info2.receipt.fee, tx_execution_info1.receipt.fee);
        assert!(tx_execution_info2.revert_error.unwrap().contains(&format!(
            "Insufficient max {}",
            blockifier::fee_checks::resource_name(overdraft_resource)
        )));

        // Invoke the `recurse` function with depth of 2000 and the actual fee of depth 1 as
        // max_fee. This call should fail due to no remaining steps (execution steps based on
        // max_fee are bounded well enough to catch this mid-execution).
        let tx_execution_info3 = run_invoke_tx(
            &mut state,
            &block_context,
            InvokeTxArgs {
                resource_bounds: resource_used_depth1,
                nonce: nonce_manager.next(),
                ..recursion_base_args
            },
            recurse(2000, false),
        )
        .unwrap();
        assert!(tx_execution_info3.is_reverted());
        assert_eq!(tx_execution_info3.receipt.da_gas, tx_execution_info1.receipt.da_gas);
        assert_eq!(tx_execution_info3.receipt.fee, tx_execution_info1.receipt.fee);
        assert!(tx_execution_info3.revert_error.unwrap().contains("no remaining steps"));
    }
}

#[test]
fn test_deploy_account_constructor_storage_write() {
    let block_context = block_context();
    let deployed: u128 = 0x7001;
    let class_hash = felt(0x1234);
    let state = &mut test_state(BALANCE, &[deployed]);

    let ctor_storage_arg = felt(1);
    let storage_key = felt(0x5151);
    let deploy_account_tx = account_tx(
        InvokeTxArgs {
            resource_bounds: default_all_resource_bounds(),
            sender_address: deployed,
            nonce: 0,
            ..Default::default()
        },
        TransactionKind::DeployAccount { contract_address: felt(deployed), class_hash },
    );
    execute(
        state,
        &block_context,
        &deploy_account_tx,
        true,
        true,
        validate_ok(),
        call_contract(move |state, context| {
            context.consume_steps(CALL_STEPS).map_err(entry_error)?;
            // The constructor writes its argument to the storage.
            state.set_storage_at(felt(deployed), storage_key, ctor_storage_arg);
            Ok(())
        }),
    )
    .unwrap();

    // Check that the constructor wrote ctor_arg to the storage.
    let read_storage_arg = state.get_storage_at(felt(deployed), storage_key);
    assert_eq!(ctor_storage_arg, read_storage_arg);
    assert_eq!(state.get_class_hash_at(felt(deployed)), class_hash);
}

fn sorted(mut addresses: Vec<ContractAddress>) -> Vec<u128> {
    addresses.sort_by_key(|a| a.low);
    addresses.into_iter().map(|a| a.low).collect()
}

/// An ERC20 transfer from the sender's balance, run as part of the execute phase.
fn transfer<'a>(token: ContractAddress, sender: u128, recipient: u128, amount: u128) -> Script<'a> {
    call_contract(move |state, context| {
        context.consume_steps(CALL_STEPS).map_err(entry_error)?;
        let from = read_balance(state, token, &balance_keys(felt(sender))).unwrap();
        let rest = from.debit(amount).ok_or("insufficient balance".to_string())?;
        write_balance(state, token, &balance_keys(felt(sender)), rest);
        let to = read_balance(state, token, &balance_keys(felt(recipient))).unwrap();
        let sum = to.credit(amount).ok_or("overflow".to_string())?;
        write_balance(state, token, &balance_keys(felt(recipient)), sum);
        Ok(())
    })
}

/// Test for counting actual storage changes.
#[test]
fn test_count_actual_storage_changes() {
    for (version, fee_type) in
        [(TransactionVersion::One, FeeType::Eth), (TransactionVersion::Three, FeeType::Strk)]
    {
        let block_context = block_context();
        let fee_token_address = block_context.chain_info.fee_token_address(fee_type);

        // Create initial state
        let mut state = test_state(BALANCE, &[ACCOUNT]);
        let mut nonce_manager = NonceManager::default();
        let sequencer_address = block_context.block_info.sequencer_address;
        let initial_sequencer_balance =
            get_fee_token_balance(&mut state, sequencer_address, fee_token_address).0.low;

        // Fee token var address.
        let sequencer_fee_token_var_address = balance_keys(sequencer_address).low();
        let account_fee_token_var_address = balance_keys(felt(ACCOUNT)).low();
        let recipient: u128 = 435;
        let transfer_amount: u128 = 1;

        // Run transactions; each in a layer of its own on top of the last one, to count only
        // storage changes of the current transaction.
        // First transaction: storage cell value changes from 0 to 1.
        let invoke_args = InvokeTxArgs {
            max_fee: MAX_FEE,
            resource_bounds: default_all_resource_bounds(),
            version,
            sender_address: ACCOUNT,
            nonce: nonce_manager.next(),
            only_query: false,
        };
        let execution_flags =
            ExecutionFlags { charge_fee: true, validate: true, concurrency_mode: false };
        let write_1 = || -> Script {
            call_contract(|state, context| {
                context.consume_steps(CALL_STEPS).map_err(entry_error)?;
                state.set_storage_at(felt(TEST_CONTRACT), felt(15), felt(1));
                Ok(())
            })
        };
        let execution_info = execute_raw(
            &mut state,
            &block_context,
            &account_invoke_tx(invoke_args),
            execution_flags,
            validate_ok(),
            write_1(),
        )
        .unwrap()
        .info;

        let fee_1 = execution_info.receipt.fee;
        let state_changes_1 = state.get_actual_state_changes();

        let mut expected_sequencer_total_fee = initial_sequencer_balance + fee_1;
        let mut account_balance = BALANCE - fee_1;

        let state_changes_count_1 = state_changes_1
            .count_for_fee_charge(Some(account_fee_token_var_address), fee_token_address)
            .unwrap();
        let expected_state_changes_count_1 = StateChangesCount {
            // See expected storage updates.
            n_storage_updates: 3,
            // The contract address (storage update) and the account address (nonce update). Does
            // not include the fee token address as a modified contract.
            n_modified_contracts: 2,
            ..Default::default()
        };

        assert_eq!(
            vec![ACCOUNT, TEST_CONTRACT, fee_token_address.low],
            sorted(state_changes_1.get_modified_contracts())
        );
        assert_eq!(state_changes_1.count_kind(CellKind::Storage), 3);
        assert_eq!(
            state_changes_1.get(&CellKey::Storage(felt(TEST_CONTRACT), felt(15))),
            Some(felt(1))
        );
        assert_eq!(
            state_changes_1.get(&CellKey::Storage(fee_token_address, account_fee_token_var_address)),
            Some(felt(account_balance))
        );
        assert_eq!(
            state_changes_1
                .get(&CellKey::Storage(fee_token_address, sequencer_fee_token_var_address)),
            Some(felt(expected_sequencer_total_fee))
        );
        assert_eq!(state_changes_count_1, expected_state_changes_count_1);

        // Second transaction: storage cell starts and ends with value 1.
        let execution_info = execute_raw(
            &mut state,
            &block_context,
            &account_invoke_tx(InvokeTxArgs { nonce: nonce_manager.next(), ..invoke_args }),
            execution_flags,
            validate_ok(),
            write_1(),
        )
        .unwrap()
        .info;

        let fee_2 = execution_info.receipt.fee;
        let state_changes_2 = state.get_actual_state_changes();

        expected_sequencer_total_fee += fee_2;
        account_balance -= fee_2;

        let state_changes_count_2 = state_changes_2
            .count_for_fee_charge(Some(account_fee_token_var_address), fee_token_address)
            .unwrap();
        let expected_state_changes_count_2 = StateChangesCount {
            // See expected storage updates.
            n_storage_updates: 2,
            // The account address (nonce update). Does not include the fee token address as a
            // modified contract.
            n_modified_contracts: 1,
            ..Default::default()
        };

        assert_eq!(
            vec![ACCOUNT, fee_token_address.low],
            sorted(state_changes_2.get_modified_contracts())
        );
        assert_eq!(state_changes_2.count_kind(CellKind::Storage), 2);
        assert_eq!(
            state_changes_2.get(&CellKey::Storage(fee_token_address, account_fee_token_var_address)),
            Some(felt(account_balance))
        );
        assert_eq!(
            state_changes_2
                .get(&CellKey::Storage(fee_token_address, sequencer_fee_token_var_address)),
            Some(felt(expected_sequencer_total_fee))
        );
        assert_eq!(state_changes_count_2, expected_state_changes_count_2);

        // Transfer transaction: transfer 1 ETH to recepient.
        let execution_info = execute_raw(
            &mut state,
            &block_context,
            &account_invoke_tx(InvokeTxArgs { nonce: nonce_manager.next(), ..invoke_args }),
            execution_flags,
            validate_ok(),
            transfer(fee_token_address, ACCOUNT, recipient, transfer_amount),
        )
        .unwrap()
        .info;

        let fee_transfer = execution_info.receipt.fee;
        let state_changes_transfer = state.get_actual_state_changes();

        expected_sequencer_total_fee += fee_transfer;
        account_balance -= fee_transfer + 1; // Reduce the fee and the transfered amount (1).

        let state_changes_count_3 = state_changes_transfer
            .count_for_fee_charge(Some(account_fee_token_var_address), fee_token_address)
            .unwrap();
        let expected_state_changes_count_3 = StateChangesCount {
            // See expected storage updates.
            n_storage_updates: 3,
            // The account address (nonce update). Does not include the fee token address as a
            // modified contract.
            n_modified_contracts: 1,
            ..Default::default()
        };

        assert_eq!(
            vec![ACCOUNT, fee_token_address.low],
            sorted(state_changes_transfer.get_modified_contracts())
        );
        assert_eq!(state_changes_transfer.count_kind(CellKind::Storage), 3);
        assert_eq!(
            state_changes_transfer
                .get(&CellKey::Storage(fee_token_address, balance_keys(felt(recipient)).low())),
            Some(felt(transfer_amount))
        );
        assert_eq!(
            state_changes_transfer
                .get(&CellKey::Storage(fee_token_address, account_fee_token_var_address)),
            Some(felt(account_balance))
        );
        assert_eq!(
            state_changes_transfer
                .get(&CellKey::Storage(fee_token_address, sequencer_fee_token_var_address)),
            Some(felt(expected_sequencer_total_fee))
        );
        assert_eq!(state_changes_count_3, expected_state_changes_count_3);
    }
}

#[test]
fn test_concurrency_execute_fee_transfer() {
    for version in [TransactionVersion::One, TransactionVersion::Three] {
        const TRANSFER_AMOUNT: u128 = 100;
        const SEQUENCER_BALANCE_LOW_INITIAL: u128 = 50;

        let block_context = block_context();
        let state = &mut test_state(BALANCE, &[ACCOUNT]);
        let sequencer_keys = block_context.block_info.sequencer_balance_keys;
        let (sequencer_balance_key_low, sequencer_balance_key_high) =
            (sequencer_keys.low(), sequencer_keys.high());
        let account_tx = account_invoke_tx(InvokeTxArgs {
            sender_address: ACCOUNT,
            max_fee: MAX_FEE,
            resource_bounds: default_all_resource_bounds(),
            version,
            ..Default::default()
        });
        let fee_type = account_tx.fee_type();
        let fee_token_address = block_context.chain_info.fee_token_address(fee_type);

        // First, the transaction did not read from/ write to the sequencer balance before
        // executing fee transfer.
        let execution_flags =
            ExecutionFlags { charge_fee: true, validate: true, concurrency_mode: true };
        let done = execute_raw(
            state,
            &block_context,
            &account_tx,
            execution_flags,
            validate_ok(),
            trivial_call(),
        )
        .unwrap();
        assert!(!done.info.is_reverted());
        assert!(done.info.fee_transfer_call_info.unwrap().sequencer_share_deferred);
        for seq_key in [sequencer_balance_key_low, sequencer_balance_key_high] {
            let cell = CellKey::Storage(fee_token_address, seq_key);
            assert!(state.top_initial_read(&cell).is_none());
            assert!(state.top_write(&cell).is_none());
        }
        state.discard(done.layer).unwrap();

        // Second, the transaction read from and wrote to the sequencer balance before executing
        // fee transfer.

        // Set the sequencer balance to a constant value to check that the read set did not
        // changed.
        fund_account(state, block_context.block_info.sequencer_address, SEQUENCER_BALANCE_LOW_INITIAL);

        // Invokes transfer to the sequencer.
        let account_tx = account_invoke_tx(InvokeTxArgs {
            sender_address: ACCOUNT,
            max_fee: MAX_FEE,
            resource_bounds: default_all_resource_bounds(),
            version,
            ..Default::default()
        });
        let result = execute_raw(
            state,
            &block_context,
            &account_tx,
            execution_flags,
            validate_ok(),
            transfer(fee_token_address, ACCOUNT, SEQUENCER, TRANSFER_AMOUNT),
        )
        .unwrap();
        assert!(!result.info.is_reverted());
        // Check that the sequencer balance was not updated.
        let low = CellKey::Storage(fee_token_address, sequencer_balance_key_low);
        let high = CellKey::Storage(fee_token_address, sequencer_balance_key_high);
        for (seq_write_val, expexted_write_val) in [
            (
                state.top_write(&low),
                // Balance after `execute` and without the fee transfer.
                felt(SEQUENCER_BALANCE_LOW_INITIAL + TRANSFER_AMOUNT),
            ),
            (state.top_initial_read(&low), felt(SEQUENCER_BALANCE_LOW_INITIAL)),
            (state.top_write(&high), felt(0)),
            (state.top_initial_read(&high), felt(0)),
        ] {
            assert_eq!(seq_write_val.unwrap(), expexted_write_val);
        }
    }
}

// Check that when the sequencer is the sender, we run the sequential fee transfer.
#[test]
fn test_concurrent_fee_transfer_when_sender_is_sequencer() {
    for version in [TransactionVersion::One, TransactionVersion::Three] {
        let mut block_context = block_context();
        block_context.block_info.sequencer_address = felt(ACCOUNT);
        block_context.block_info.sequencer_balance_keys = balance_keys(felt(ACCOUNT));
        let sender_balance = BALANCE;
        let state = &mut test_state(sender_balance, &[ACCOUNT]);
        let sequencer_keys = block_context.block_info.sequencer_balance_keys;
        let account_tx = account_invoke_tx(InvokeTxArgs {
            max_fee: MAX_FEE,
            sender_address: ACCOUNT,
            resource_bounds: default_all_resource_bounds(),
            version,
            ..Default::default()
        });
        let fee_type = account_tx.fee_type();
        let fee_token_address = block_context.chain_info.fee_token_address(fee_type);

        let execution_flags =
            ExecutionFlags { charge_fee: true, validate: true, concurrency_mode: true };
        let result = execute_raw(
            state,
            &block_context,
            &account_tx,
            execution_flags,
            validate_ok(),
            trivial_call(),
        )
        .unwrap();
        assert!(!result.info.is_reverted());
        assert!(!result.info.fee_transfer_call_info.unwrap().sequencer_share_deferred);
        // Check that the sequencer balance was updated (in this case, was not changed).
        for (seq_key, seq_value) in [(sequencer_keys.low(), sender_balance), (sequencer_keys.high(), 0)]
        {
            // The new balance stands written in the transaction's layer at once.
            assert_eq!(
                state.top_write(&CellKey::Storage(fee_token_address, seq_key)),
                Some(felt(seq_value))
            );
            assert_eq!(state.get_storage_at(fee_token_address, seq_key), felt(seq_value));
        }
    }
}

/// Check initial gas is as expected according to the contract cairo+compiler version, and call
/// history.
#[test]
fn test_initial_gas() {
    let versions = [
        TrackedResource::SierraGas,
        TrackedResource::SierraGas,
        TrackedResource::CairoSteps,
        TrackedResource::SierraGas,
    ];
    let block_context = block_context();
    let account_version = TrackedResource::SierraGas;
    let state = &mut test_state(BALANCE, &[ACCOUNT]);
    let account_tx = account_invoke_tx(InvokeTxArgs {
        sender_address: ACCOUNT,
        resource_bounds: default_all_resource_bounds(),
        version: TransactionVersion::Three,
        ..Default::default()
    });

    // The account's own call, then a chain of calls, one inside the other; each contract that
    // is metered in gas uses some before it calls on.
    let chain: Script = Box::new(move |_state, context| {
        context.enter_call(account_version).map_err(entry_error)?;
        context.consume_gas(1_000).map_err(entry_error)?;
        for version in versions {
            context.enter_call(version).map_err(entry_error)?;
            context.consume_steps(CALL_STEPS).map_err(entry_error)?;
            context.consume_gas(1_000).map_err(entry_error)?;
        }
        for _ in 0..=versions.len() {
            context.exit_call(false).map_err(entry_error)?;
        }
        Ok(())
    });
    let done = execute(state, &block_context, &account_tx, true, true, validate_ok(), chain).unwrap();

    let validate_calls: CallInfo = done.info.validate_call_info.unwrap().call_info;
    let validate_call_info = validate_calls.get(0).unwrap();
    let validate_initial_gas = validate_call_info.initial_gas;
    assert_eq!(validate_initial_gas, DEFAULT_L2_GAS_MAX_AMOUNT);
    let validate_gas_consumed = validate_call_info.gas_consumed;
    assert!(validate_gas_consumed > 0, "New Cairo1 contract should consume gas.");

    let execute_calls: CallInfo = done.info.execute_call_info.unwrap().call_info;
    let mut prev_initial_gas = validate_initial_gas;
    let mut position = 0;
    let mut started_vm_mode = false;
    // The __validate__ call of a the account contract.
    let mut prev_version = account_version;
    // Insert the __execute__ call in the beginning of versions (same version as the
    // __validate__).
    for version in [account_version].iter().chain(versions.iter()) {
        let execute_call_info = execute_calls.get(position).unwrap();
        let curr_initial_gas = execute_call_info.initial_gas;

        match (prev_version, version, started_vm_mode) {
            (TrackedResource::CairoSteps, _, _) => {
                assert_eq!(started_vm_mode, true);
                assert_eq!(curr_initial_gas, prev_initial_gas);
            }
            (_, TrackedResource::CairoSteps, false) => {
                // First time we are in VM mode.
                assert_eq!(prev_version, TrackedResource::SierraGas);
                assert_eq!(
                    curr_initial_gas,
                    block_context.versioned_constants.default_initial_gas_cost
                );
                started_vm_mode = true;
            }
            _ => {
                // prev_version is a non Cairo0 contract, thus it consumes gas from the initial
                // gas.
                assert!(curr_initial_gas < prev_initial_gas);
                if *version == TrackedResource::SierraGas {
                    assert!(execute_call_info.gas_consumed > 0);
                } else {
                    assert!(execute_call_info.gas_consumed == 0);
                }
            }
        };

        // If inner_calls is empty, this SHOULD be the last call and thus last loop iteration.
        let inner_calls = execute_calls.inner_calls(position);
        assert!(inner_calls.len() <= 1);
        position = inner_calls.first().copied().unwrap_or(usize::MAX);
        prev_initial_gas = curr_initial_gas;
        prev_version = *version;
    }
    assert_eq!(position, usize::MAX);
}

#[test]
fn test_revert_in_execute() {
    let block_context = block_context();
    let state = &mut test_state(BALANCE, &[ACCOUNT]);
    let mut nonce_manager = NonceManager::default();

    // Skip validate phase, as we want to test the revert in the execute phase.
    let validate = false;
    let info = execute(
        state,
        &block_context,
        &account_invoke_tx(InvokeTxArgs {
            resource_bounds: default_all_resource_bounds(),
            sender_address: ACCOUNT,
            nonce: nonce_manager.next(),
            ..Default::default()
        }),
        true,
        validate,
        validate_ok(),
        Box::new(|_state, context| {
            context.enter_call(TrackedResource::SierraGas).map_err(entry_error)?;
            context.consume_steps(10).map_err(entry_error)?;
            // The calldata is empty.
            Err("Failed to deserialize param #1".to_string())
        }),
    )
    .unwrap()
    .info;

    assert!(info.is_reverted());
    assert!(info.validate_call_info.is_none());
    assert!(info.revert_error.unwrap().contains("Failed to deserialize param #1"));
}

#[test]
fn test_call_contract_that_panics() {
    for enable_reverts in [true, false] {
        for inner_selector in ["test_revert_helper", "bad_selector"] {
            // Override enable reverts.
            let mut block_context = block_context();
            block_context.versioned_constants.enable_reverts = enable_reverts;
            let state = &mut test_state(BALANCE, &[ACCOUNT]);
            let mut nonce_manager = NonceManager::default();

            // Invoke a function that calls a contract that fails. If reverts are enabled, the
            // caller catches the failure and goes on; otherwise the failure is the phase's.
            let result = run_invoke_tx(
                state,
                &block_context,
                InvokeTxArgs {
                    sender_address: ACCOUNT,
                    resource_bounds: default_all_resource_bounds(),
                    nonce: nonce_manager.next(),
                    ..Default::default()
                },
                call_contract(move |_state, context| {
                    context.enter_call(TrackedResource::SierraGas).map_err(entry_error)?;
                    context.consume_steps(CALL_STEPS).map_err(entry_error)?;
                    context.exit_call(true).map_err(entry_error)?;
                    if enable_reverts {
                        Ok(())
                    } else {
                        Err(format!("{inner_selector} failed"))
                    }
                }),
            );

            match result {
                Ok(info) => {
                    assert!(enable_reverts);
                    assert!(!info.is_reverted());
                }
                Err(error) => {
                    // Without reverts a failure of the execute phase rejects the transaction.
                    assert!(!enable_reverts);
                    assert!(matches!(error, TransactionExecutionError::ExecutionError { .. }));
                    assert_eq!(state.get_nonce_at(felt(ACCOUNT)), felt(0));
                }
            }
        }
    }
}

#[test]
fn execution_modes_have_their_own_ceiling() {
    let block_context = block_context();
    let tx = account_invoke_tx(InvokeTxArgs::default());
    let tx_context: TransactionContext = block_context.to_tx_context(tx.tx_info, tx.sender_balance_keys);
    assert_eq!(
        blockifier::budget::max_steps(&tx_context, ExecutionMode::Validate, false),
        1_000_000
    );
    assert_eq!(
        blockifier::budget::max_steps(&tx_context, ExecutionMode::Execute, false),
        10_000_000
    );
    let _ = GasVector::zero();
}
