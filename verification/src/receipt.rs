//! What a transaction is charged: the gas its resources cost and the fee
//! of that gas, and the check of the charge against the declared bounds.

use vstd::prelude::*;
use crate::context::TransactionContext;
use crate::fee_checks::{
    check_actual_cost_within_bounds,
    spec_check_actual_cost_within_bounds,
    FeeCheckError,
};
use crate::changes::spec_count_for_fee_charge;
use crate::fee_transfer::{
    high_cell,
    low_cell,
    read_balance,
    spec_balance,
    stack_after_balance_read,
    Balance,
};

use crate::gas::{Fee, GasVector, GasVectorComputationMode};
use crate::gas::lemma_cost_monotonic;
use crate::resources::{
    spec_max_builtin_gas,
    spec_priced_steps,
    ComputationResources,
    StateChangesCount,
    TransactionResources,
    N_BUILTINS,
};
use crate::resources_laws::{
    lemma_fee_scales_with_gas,
    lemma_l1_gas_linear,
    lemma_l1_gas_monotonic,
    lemma_l2_gas_linear,
    same_but_steps,
    steps_apart,
};
use crate::state::{visible, LayerView, LayeredState, StateReader};
use crate::state_laws::{
    ledger,
    lemma_get_keeps_ledger,
    stack_after_counting,
    stack_after_get,
    top_net_writes,
};
use crate::state_map::CellKey;
use crate::felt::Felt;

verus! {

/// The charge of a transaction.
#[derive(Clone, Copy, Debug, PartialEq, Eq)]
pub struct TransactionReceipt {
    /// The fee of the gas at the block's prices.
    pub fee: Fee,
    /// The gas of all resources.
    pub gas: GasVector,
    /// The part of the gas that pays for publishing state changes.
    pub da_gas: GasVector,
    pub resources: TransactionResources,
}

/// The data-availability part of a gas vector.
pub open spec fn spec_da_vector(amount: nat, use_kzg_da: bool) -> GasVector {
    if use_kzg_da {
        GasVector { l1_gas: 0, l1_data_gas: amount as u64, l2_gas: 0 }
    } else {
        GasVector { l1_gas: amount as u64, l1_data_gas: 0, l2_gas: 0 }
    }
}

/// The receipt for the given state changes and computation: the resources
/// priced in gas under the block's cost model, in the layout that the
/// transaction's bounds call for, and the gas priced at the block's prices
/// in the transaction's currency. `None` when an amount does not fit.
pub open spec fn spec_receipt(
    tx_context: TransactionContext,
    count: StateChangesCount,
    computation: ComputationResources,
) -> Option<TransactionReceipt> {
    let resources = TransactionResources { state_changes_for_fee: count, computation };
    let costs = tx_context.block_context.versioned_constants.gas_costs;
    let use_kzg_da = tx_context.block_context.block_info.use_kzg_da;
    let mode = tx_context.tx_info.spec_gas_mode();
    if !resources.spec_gas_fits(costs, use_kzg_da, mode) {
        None
    } else {
        let gas = resources.spec_gas_vector(costs, use_kzg_da, mode);
        let fee = gas.spec_cost(tx_context.spec_gas_prices());
        if fee > u128::MAX {
            None
        } else {
            Some(
                TransactionReceipt {
                    fee: fee as u128,
                    gas,
                    da_gas: spec_da_vector(resources.spec_da_amount(costs, use_kzg_da), use_kzg_da),
                    resources,
                },
            )
        }
    }
}

/// Computes the receipt for the given state changes and computation.
pub fn compute_receipt(
    tx_context: &TransactionContext,
    count: StateChangesCount,
    computation: ComputationResources,
) -> (r: Option<TransactionReceipt>)
    ensures
        r == spec_receipt(*tx_context, count, computation),
{
    let resources = TransactionResources { state_changes_for_fee: count, computation };
    let costs = &tx_context.block_context.versioned_constants.gas_costs;
    let use_kzg_da = tx_context.block_context.block_info.use_kzg_da;
    let mode = tx_context.tx_info.gas_mode();
    let gas = match resources.to_gas_vector(costs, use_kzg_da, mode) {
        Some(g) => g,
        None => {
            return None;
        },
    };
    let da_gas = match resources.da_gas(costs, use_kzg_da) {
        Some(g) => g,
        None => {
            return None;
        },
    };
    let prices = tx_context.get_gas_prices();
    let fee = match gas.cost(&prices) {
        Some(f) => f,
        None => {
            return None;
        },
    };
    Some(TransactionReceipt { fee, gas, da_gas, resources })
}

/// The data-availability gas of a receipt depends on the state changes and
/// on how the block publishes them, never on whether the transaction
/// bounds L1 gas alone or all resources.
pub proof fn lemma_da_gas_is_bound_mode_invariant(
    with_l1_bounds: TransactionContext,
    with_all_bounds: TransactionContext,
    count: StateChangesCount,
    computation_l1: ComputationResources,
    computation_all: ComputationResources,
)
    requires
        with_l1_bounds.block_context == with_all_bounds.block_context,
        spec_receipt(with_l1_bounds, count, computation_l1) is Some,
        spec_receipt(with_all_bounds, count, computation_all) is Some,
    ensures
        spec_receipt(with_l1_bounds, count, computation_l1)->Some_0.da_gas == spec_receipt(
            with_all_bounds,
            count,
            computation_all,
        )->Some_0.da_gas,
{
}

/// More steps never cost less, whether they were burned by a part that is
/// kept or by one that is rolled back: of two computations that count the
/// same but for their steps, the one that is charged for more steps pays no
/// lower fee.
pub proof fn lemma_charge_grows_with_steps(
    tx_context: TransactionContext,
    count: StateChangesCount,
    fewer: ComputationResources,
    more: ComputationResources,
)
    requires
        same_but_steps(fewer, more),
        fewer.spec_total_charged_steps() <= more.spec_total_charged_steps(),
        tx_context.block_context.versioned_constants.gas_costs.vm_resource_fee_cost.n_steps.denom()
            > 0,
        spec_receipt(tx_context, count, fewer) is Some,
        spec_receipt(tx_context, count, more) is Some,
    ensures
        spec_receipt(tx_context, count, fewer)->Some_0.fee <= spec_receipt(
            tx_context,
            count,
            more,
        )->Some_0.fee,
{
    let costs = tx_context.block_context.versioned_constants.gas_costs;
    let low = spec_receipt(tx_context, count, fewer)->Some_0;
    let high = spec_receipt(tx_context, count, more)->Some_0;
    let apart = (more.spec_total_charged_steps() - fewer.spec_total_charged_steps()) as nat;
    lemma_l1_gas_monotonic(fewer, more, costs.vm_resource_fee_cost);
    assert(1 * apart == apart);
    lemma_l2_gas_linear(fewer, more, costs.l2_gas_costs, apart, 1);
    lemma_cost_monotonic(low.gas, high.gas, tx_context.spec_gas_prices());
}

/// Where execution is paid for in L2 gas, and a step costs some, more
/// steps cost strictly more: no two amounts of work are charged the same
/// fee.
pub proof fn lemma_charge_grows_strictly_in_l2_gas(
    tx_context: TransactionContext,
    count: StateChangesCount,
    fewer: ComputationResources,
    more: ComputationResources,
)
    requires
        same_but_steps(fewer, more),
        fewer.spec_total_charged_steps() < more.spec_total_charged_steps(),
        tx_context.tx_info.spec_gas_mode() == GasVectorComputationMode::All,
        tx_context.block_context.versioned_constants.gas_costs.l2_gas_costs.step_gas_cost > 0,
        tx_context.spec_gas_prices().l2_gas_price.get() > 0,
        spec_receipt(tx_context, count, fewer) is Some,
        spec_receipt(tx_context, count, more) is Some,
    ensures
        spec_receipt(tx_context, count, fewer)->Some_0.fee < spec_receipt(
            tx_context,
            count,
            more,
        )->Some_0.fee,
{
    let costs = tx_context.block_context.versioned_constants.gas_costs;
    let prices = tx_context.spec_gas_prices();
    let low = spec_receipt(tx_context, count, fewer)->Some_0;
    let high = spec_receipt(tx_context, count, more)->Some_0;
    let apart = (more.spec_total_charged_steps() - fewer.spec_total_charged_steps()) as nat;
    let step_cost = costs.l2_gas_costs.step_gas_cost as nat;
    let price = prices.l2_gas_price.get() as nat;
    assert(1 * apart == apart);
    lemma_l2_gas_linear(fewer, more, costs.l2_gas_costs, apart, 1);
    assert(apart * step_cost > 0) by (nonlinear_arith)
        requires
            apart > 0,
            step_cost > 0,
    ;
    assert(low.gas.l2_gas < high.gas.l2_gas);
    assert((low.gas.l2_gas as nat) * price < (high.gas.l2_gas as nat) * price) by (nonlinear_arith)
        requires
            low.gas.l2_gas < high.gas.l2_gas,
            price > 0,
    ;
}

/// Whether the steps of a portion are charged for in whole units of gas:
/// always where execution is paid for in L2 gas; where it is folded into L1
/// gas, if the steps and not the circuits are what is charged for, and a
/// portion costs a whole number of units.
pub open spec fn portion_is_whole(
    tx_context: TransactionContext,
    base: ComputationResources,
    per_level: nat,
) -> bool {
    let costs = tx_context.block_context.versioned_constants.gas_costs.vm_resource_fee_cost;
    tx_context.tx_info.spec_gas_mode() == GasVectorComputationMode::NoL2Gas ==> {
        &&& (per_level * costs.n_steps.numer()) % (costs.n_steps.denom() as int) == 0
        &&& spec_max_builtin_gas(
            base.vm_resources.builtin_instance_counter@,
            costs.builtins@,
            N_BUILTINS as nat,
        ) <= costs.n_steps.spec_cost_of(spec_priced_steps(base))
    }
}

/// A workload that burns the same steps with every level of depth is
/// charged in equal portions: on top of what is charged at the base,
/// `depth` levels are charged `depth` times the steps, and `depth` times
/// the fee, of one level. The fee of one level is never below that of the
/// base.
pub proof fn lemma_charge_grows_in_equal_portions(
    tx_context: TransactionContext,
    count: StateChangesCount,
    base: ComputationResources,
    one_level: ComputationResources,
    many_levels: ComputationResources,
    per_level: nat,
    depth: nat,
)
    requires
        steps_apart(base, one_level, per_level, 1),
        steps_apart(base, many_levels, per_level, depth),
        tx_context.block_context.versioned_constants.gas_costs.vm_resource_fee_cost.n_steps.denom()
            > 0,
        portion_is_whole(tx_context, base, per_level),
        spec_receipt(tx_context, count, base) is Some,
        spec_receipt(tx_context, count, one_level) is Some,
        spec_receipt(tx_context, count, many_levels) is Some,
    ensures
        many_levels.spec_total_charged_steps() - base.spec_total_charged_steps() == depth * (
        one_level.spec_total_charged_steps() - base.spec_total_charged_steps()),
        spec_receipt(tx_context, count, many_levels)->Some_0.fee - spec_receipt(
            tx_context,
            count,
            base,
        )->Some_0.fee == depth * (spec_receipt(tx_context, count, one_level)->Some_0.fee
            - spec_receipt(tx_context, count, base)->Some_0.fee),
        spec_receipt(tx_context, count, base)->Some_0.fee <= spec_receipt(
            tx_context,
            count,
            one_level,
        )->Some_0.fee,
{
    let costs = tx_context.block_context.versioned_constants.gas_costs;
    let at_base = spec_receipt(tx_context, count, base)->Some_0;
    let at_one = spec_receipt(tx_context, count, one_level)->Some_0;
    let at_many = spec_receipt(tx_context, count, many_levels)->Some_0;
    assert(1 * per_level == per_level);
    lemma_l2_gas_linear(base, one_level, costs.l2_gas_costs, per_level, 1);
    lemma_l2_gas_linear(base, many_levels, costs.l2_gas_costs, per_level, depth);
    if tx_context.tx_info.spec_gas_mode() == GasVectorComputationMode::NoL2Gas {
        lemma_l1_gas_linear(base, one_level, costs.vm_resource_fee_cost, per_level, 1);
        lemma_l1_gas_linear(base, many_levels, costs.vm_resource_fee_cost, per_level, depth);
    }
    lemma_fee_scales_with_gas(
        at_base.gas,
        at_one.gas,
        at_many.gas,
        depth,
        tx_context.spec_gas_prices(),
    );
}

/// The outcome of the check after execution: the failure, if there is
/// one, and the fee to charge.
#[derive(Clone, Copy, Debug, PartialEq, Eq, Structural)]
pub struct PostExecutionReport {
    pub error: Option<FeeCheckError>,
    pub recommended_fee: Fee,
}

/// Whether the balance covers the fee.
pub open spec fn spec_balance_covers(balance: Balance, fee: Fee) -> bool {
    balance.high > 0 || balance.low >= fee
}

/// The check after execution. Without a charge, or without enforcement,
/// nothing is checked and the fee stands. Consumption beyond the declared
/// bounds fails, and the fee snaps to what the bounds allow. A balance that
/// does not cover the fee fails, and the fee stands. A balance cell of more
/// than 128 bits counts as an empty balance.
pub open spec fn spec_post_execution_report(
    cells: Map<CellKey, Felt>,
    tx_context: TransactionContext,
    gas: GasVector,
    fee: Fee,
    charge_fee: bool,
) -> PostExecutionReport {
    if !charge_fee || !tx_context.tx_info.spec_enforce_fee() {
        PostExecutionReport { error: None, recommended_fee: fee }
    } else {
        match spec_check_actual_cost_within_bounds(tx_context, gas, fee) {
            Err(e) => PostExecutionReport {
                error: Some(e),
                recommended_fee: tx_context.tx_info.spec_max_fee(),
            },
            Ok(()) => {
                let balance = match spec_balance(
                    cells,
                    tx_context.spec_fee_token_address(),
                    tx_context.sender_balance_keys,
                ) {
                    Some(b) => b,
                    None => Balance { low: 0, high: 0 },
                };
                if spec_balance_covers(balance, fee) {
                    PostExecutionReport { error: None, recommended_fee: fee }
                } else {
                    PostExecutionReport {
                        error: Some(
                            FeeCheckError::InsufficientFeeTokenBalance {
                                fee,
                                balance_low: balance.low,
                                balance_high: balance.high,
                            },
                        ),
                        recommended_fee: fee,
                    }
                }
            },
        }
    }
}

/// Whether the check after execution looks at the sender's balance: the
/// fee is charged and enforced, and the consumption is within the declared
/// bounds.
pub open spec fn spec_report_reads_balance(
    tx_context: TransactionContext,
    gas: GasVector,
    fee: Fee,
    charge_fee: bool,
) -> bool {
    &&& charge_fee
    &&& tx_context.tx_info.spec_enforce_fee()
    &&& spec_check_actual_cost_within_bounds(tx_context, gas, fee) is Ok
}

/// The stack after the check after execution: where the check looks at the
/// sender's balance, the top layer has read its two cells.
pub open spec fn stack_after_report(
    base: spec_fn(CellKey) -> Felt,
    layers: Seq<LayerView>,
    tx_context: TransactionContext,
    gas: GasVector,
    fee: Fee,
    charge_fee: bool,
) -> Seq<LayerView> {
    if spec_report_reads_balance(tx_context, gas, fee, charge_fee) {
        stack_after_balance_read(
            base,
            layers,
            tx_context.spec_fee_token_address(),
            tx_context.sender_balance_keys,
        )
    } else {
        layers
    }
}

/// Runs the check after execution. Reading the sender's balance records
/// its two cells as read in the topmost layer.
pub fn post_execution_report<R: StateReader>(
    state: &mut LayeredState<R>,
    tx_context: &TransactionContext,
    gas: &GasVector,
    fee: Fee,
    charge_fee: bool,
) -> (r: PostExecutionReport)
    requires
        old(state).valid(),
    ensures
        final(state).valid(),
        final(state).spec_base() == old(state).spec_base(),
        old(state).consistent() ==> final(state).consistent(),
        final(state).spec_ledger() == old(state).spec_ledger(),
        final(state).spec_layers().len() == old(state).spec_layers().len(),
        final(state).spec_layers().drop_last() == old(state).spec_layers().drop_last(),
        final(state).spec_net_writes() == old(state).spec_net_writes(),
        final(state).spec_top().writes == old(state).spec_top().writes,
        r == spec_post_execution_report(old(state).spec_ledger(), *tx_context, *gas, fee, charge_fee),
        final(state).spec_layers() == stack_after_report(
            old(state).spec_base_fn(),
            old(state).spec_layers(),
            *tx_context,
            *gas,
            fee,
            charge_fee,
        ),
{
    if !charge_fee || !tx_context.tx_info.enforce_fee() {
        return PostExecutionReport { error: None, recommended_fee: fee };
    }
    match check_actual_cost_within_bounds(tx_context, gas, fee) {
        Err(e) => PostExecutionReport { error: Some(e), recommended_fee: tx_context.tx_info.max_fee() },
        Ok(()) => {
            let token = tx_context.fee_token_address();
            let keys = tx_context.sender_balance_keys;
            let balance = match read_balance(state, token, &keys) {
                Some(b) => b,
                None => Balance { low: 0, high: 0 },
            };
            if balance.high > 0 || balance.low >= fee {
                PostExecutionReport { error: None, recommended_fee: fee }
            } else {
                PostExecutionReport {
                    error: Some(
                        FeeCheckError::InsufficientFeeTokenBalance {
                            fee,
                            balance_low: balance.low,
                            balance_high: balance.high,
                        },
                    ),
                    recommended_fee: fee,
                }
            }
        },
    }
}

/// The counts that the fee has to cover for the given net changes of a
/// transaction; `None` when a count does not fit.
pub open spec fn spec_fee_count(changes: Map<CellKey, Felt>, tx_context: TransactionContext) -> Option<
    StateChangesCount,
> {
    let counts = spec_count_for_fee_charge(
        changes,
        Some(tx_context.sender_balance_keys.low()),
        tx_context.spec_fee_token_address(),
    );
    if counts.0 <= usize::MAX {
        Some(
            StateChangesCount {
                n_storage_updates: counts.0 as usize,
                n_class_hash_updates: counts.1 as usize,
                n_compiled_class_hash_updates: counts.2 as usize,
                n_modified_contracts: counts.3 as usize,
            },
        )
    } else {
        None
    }
}

/// The charge for the given net changes and computation, and the outcome
/// of the check after execution against the given cells; `None` when an
/// amount does not fit.
pub open spec fn spec_charge(
    changes: Map<CellKey, Felt>,
    cells: Map<CellKey, Felt>,
    tx_context: TransactionContext,
    computation: ComputationResources,
    charge_fee: bool,
) -> Option<(TransactionReceipt, PostExecutionReport)> {
    match spec_fee_count(changes, tx_context) {
        None => None,
        Some(count) => match spec_receipt(tx_context, count, computation) {
            None => None,
            Some(receipt) => Some(
                (
                    receipt,
                    spec_post_execution_report(cells, tx_context, receipt.gas, receipt.fee, charge_fee),
                ),
            ),
        },
    }
}

/// The stack after the charge was worked out at its top: the top layer
/// has read what it wrote to, and then what the check after execution
/// looks at.
pub open spec fn stack_after_charge(
    base: spec_fn(CellKey) -> Felt,
    layers: Seq<LayerView>,
    tx_context: TransactionContext,
    computation: ComputationResources,
    charge_fee: bool,
) -> Seq<LayerView> {
    let counted = stack_after_counting(base, layers);
    match spec_charge(
        top_net_writes(base, layers),
        ledger(base, layers),
        tx_context,
        computation,
        charge_fee,
    ) {
        None => counted,
        Some((receipt, _)) => stack_after_report(
            base,
            counted,
            tx_context,
            receipt.gas,
            receipt.fee,
            charge_fee,
        ),
    }
}

/// Working out the charge writes nothing and forgets nothing: the top
/// layer keeps its writes and its first reads, and what it reads in
/// addition is a cell that it wrote to or a balance cell of the sender. No
/// other layer changes.
pub proof fn lemma_charge_only_reads(
    base: spec_fn(CellKey) -> Felt,
    layers: Seq<LayerView>,
    tx_context: TransactionContext,
    computation: ComputationResources,
    charge_fee: bool,
)
    requires
        layers.len() >= 1,
    ensures
        ({
            let after = stack_after_charge(base, layers, tx_context, computation, charge_fee);
            let token = tx_context.spec_fee_token_address();
            let sender = tx_context.sender_balance_keys;
            &&& after.len() == layers.len()
            &&& after.drop_last() == layers.drop_last()
            &&& after.last().writes == layers.last().writes
            &&& forall|k: CellKey| #[trigger]
                layers.last().initial_reads.contains_key(k) ==> after.last().initial_reads.contains_key(
                    k,
                ) && after.last().initial_reads[k] == layers.last().initial_reads[k]
            &&& forall|k: CellKey| #[trigger]
                after.last().initial_reads.contains_key(k) ==> {
                    ||| layers.last().initial_reads.contains_key(k)
                    ||| layers.last().writes.contains_key(k)
                    ||| k == low_cell(token, sender)
                    ||| k == high_cell(token, sender)
                }
            &&& ledger(base, after) == ledger(base, layers)
        }),
{
    let token = tx_context.spec_fee_token_address();
    let sender = tx_context.sender_balance_keys;
    let counted = stack_after_counting(base, layers);
    let low = stack_after_get(base, counted, low_cell(token, sender));
    let high = stack_after_get(base, low, high_cell(token, sender));
    let after = stack_after_charge(base, layers, tx_context, computation, charge_fee);
    assert(counted.drop_last() =~= layers.drop_last());
    assert(low.drop_last() =~= layers.drop_last());
    assert(high.drop_last() =~= layers.drop_last());
    assert(after == counted || after == high);
    assert forall|k: CellKey| visible(base, counted, k) == visible(base, layers, k) by {}
    assert(ledger(base, counted) =~= ledger(base, layers));
    lemma_get_keeps_ledger(base, counted, low_cell(token, sender));
    lemma_get_keeps_ledger(base, low, high_cell(token, sender));
}

/// Works out the charge for the net changes of the topmost layer and the
/// given computation, and checks it. The topmost layer may record reads;
/// nothing is written.
pub fn charge<R: StateReader>(
    state: &mut LayeredState<R>,
    tx_context: &TransactionContext,
    computation: ComputationResources,
    charge_fee: bool,
) -> (r: Option<(TransactionReceipt, PostExecutionReport)>)
    requires
        old(state).valid(),
    ensures
        final(state).valid(),
        final(state).spec_base() == old(state).spec_base(),
        old(state).consistent() ==> final(state).consistent(),
        final(state).spec_ledger() == old(state).spec_ledger(),
        final(state).spec_layers().len() == old(state).spec_layers().len(),
        final(state).spec_layers().drop_last() == old(state).spec_layers().drop_last(),
        final(state).spec_net_writes() == old(state).spec_net_writes(),
        final(state).spec_top().writes == old(state).spec_top().writes,
        r == spec_charge(
            old(state).spec_net_writes(),
            old(state).spec_ledger(),
            *tx_context,
            computation,
            charge_fee,
        ),
        final(state).spec_layers() == stack_after_charge(
            old(state).spec_base_fn(),
            old(state).spec_layers(),
            *tx_context,
            computation,
            charge_fee,
        ),
{
    proof {
        state.lemma_valid_has_layer();
    }
    let changes = state.get_actual_state_changes();
    let count = match changes.count_for_fee_charge(
        Some(tx_context.sender_balance_keys.low()),
        tx_context.fee_token_address(),
    ) {
        Some(c) => c,
        None => {
            return None;
        },
    };
    let receipt = match compute_receipt(tx_context, count, computation) {
        Some(x) => x,
        None => {
            return None;
        },
    };
    let report = post_execution_report(state, tx_context, &receipt.gas, receipt.fee, charge_fee);
    Some((receipt, report))
}

} // verus!
