//! The step budget that a transaction's fee or resource bounds buy.

use vstd::prelude::*;
use vstd::arithmetic::div_mod::{lemma_div_multiples_vanish_fancy, lemma_fundamental_div_mod};
use crate::context::TransactionContext;
use crate::fields::{TransactionInfo, ValidResourceBounds};
use crate::gas::{Fee, GasAmount};
use crate::resources::ResourceCost;

verus! {

/// The phase an entry point runs in.
#[derive(Clone, Copy, Debug, PartialEq, Eq, Hash, Structural)]
pub enum ExecutionMode {
    Validate,
    Execute,
}

/// `x` capped at the largest 64-bit number.
pub open spec fn saturate_u64(x: nat) -> u64 {
    if x <= u64::MAX {
        x as u64
    } else {
        u64::MAX
    }
}

/// The L1 gas that `max_fee` buys at `l1_gas_price`, rounded down and
/// capped.
pub open spec fn spec_gas_from_fee(max_fee: Fee, l1_gas_price: u128) -> GasAmount
    recommends
        l1_gas_price > 0,
{
    saturate_u64((max_fee / l1_gas_price) as nat)
}

/// The steps that `l1_gas` buys when one step costs `step_cost` L1 gas:
/// the gas times the steps per unit of gas, rounded down and capped. A step
/// that costs nothing is not limited by gas.
pub open spec fn spec_steps_from_l1_gas(l1_gas: GasAmount, step_cost: ResourceCost) -> u64 {
    if step_cost.numer() == 0 {
        u64::MAX
    } else {
        saturate_u64(((l1_gas as nat) * (step_cost.denom() as nat) / (step_cost.numer() as nat)))
    }
}

/// The steps that `l2_gas` buys when one step costs `step_gas_cost` L2 gas,
/// rounded down. A step that costs nothing is not limited by gas.
pub open spec fn spec_steps_from_l2_gas(l2_gas: GasAmount, step_gas_cost: u32) -> u64 {
    if step_gas_cost == 0 {
        u64::MAX
    } else {
        (l2_gas / (step_gas_cost as u64)) as u64
    }
}

/// The steps that the transaction's own fee or bounds buy: a legacy
/// transaction turns its maximal fee into L1 gas and that into steps; a
/// transaction bounded on L1 gas alone turns that bound into steps; a
/// transaction bounded on all axes divides its L2 gas bound by the cost of
/// a step.
pub open spec fn spec_tx_steps_bound(tx_context: TransactionContext) -> u64 {
    let constants = tx_context.block_context.versioned_constants;
    let step_cost = constants.gas_costs.vm_resource_fee_cost.n_steps;
    match tx_context.tx_info {
        TransactionInfo::Deprecated(info) => spec_steps_from_l1_gas(
            spec_gas_from_fee(info.max_fee, tx_context.spec_gas_prices().l1_gas_price.get()),
            step_cost,
        ),
        TransactionInfo::Current(info) => match info.resource_bounds {
            ValidResourceBounds::L1Gas(l1) => spec_steps_from_l1_gas(l1.max_amount, step_cost),
            ValidResourceBounds::AllResources(all) => spec_steps_from_l2_gas(
                all.l2_gas.max_amount,
                constants.gas_costs.l2_gas_costs.step_gas_cost,
            ),
        },
    }
}

/// The block's ceiling on the steps of one phase.
pub open spec fn spec_block_steps_bound(tx_context: TransactionContext, mode: ExecutionMode) -> u32 {
    match mode {
        ExecutionMode::Validate => tx_context.block_context.versioned_constants.validate_max_n_steps,
        ExecutionMode::Execute => tx_context.block_context.versioned_constants.invoke_tx_max_n_steps,
    }
}

/// The step budget of one phase: the block's ceiling, lowered to what the
/// transaction's fee or bounds buy when steps are limited by resources and
/// the fee is enforced.
pub open spec fn spec_max_steps(
    tx_context: TransactionContext,
    mode: ExecutionMode,
    limit_steps_by_resources: bool,
) -> usize {
    let block_bound = spec_block_steps_bound(tx_context, mode);
    if !limit_steps_by_resources || !tx_context.tx_info.spec_enforce_fee() {
        block_bound as usize
    } else {
        let tx_bound = spec_tx_steps_bound(tx_context);
        if tx_bound < block_bound {
            tx_bound as usize
        } else {
            block_bound as usize
        }
    }
}

/// The L1 gas that `max_fee` buys at `l1_gas_price`.
pub fn gas_from_fee(max_fee: Fee, l1_gas_price: u128) -> (r: GasAmount)
    requires
        l1_gas_price > 0,
    ensures
        r == spec_gas_from_fee(max_fee, l1_gas_price),
{
    let gas: u128 = max_fee / l1_gas_price;
    if gas > u64::MAX as u128 {
        u64::MAX
    } else {
        gas as u64
    }
}

/// The steps that `l1_gas` buys when one step costs `step_cost` L1 gas.
pub fn steps_from_l1_gas(l1_gas: GasAmount, step_cost: &ResourceCost) -> (r: u64)
    ensures
        r == spec_steps_from_l1_gas(l1_gas, *step_cost),
{
    let numer: u128 = step_cost.numer() as u128;
    let denom: u128 = step_cost.denom() as u128;
    if numer == 0 {
        return u64::MAX;
    }
    assert((l1_gas as u128) * denom <= 0xffff_ffff_ffff_ffff * 0xffff_ffff) by (nonlinear_arith)
        requires
            l1_gas <= 0xffff_ffff_ffff_ffff,
            denom <= 0xffff_ffff,
    ;
    let steps: u128 = (l1_gas as u128) * denom / numer;
    if steps > u64::MAX as u128 {
        u64::MAX
    } else {
        steps as u64
    }
}

/// The steps that `l2_gas` buys when one step costs `step_gas_cost` L2 gas.
pub fn steps_from_l2_gas(l2_gas: GasAmount, step_gas_cost: u32) -> (r: u64)
    ensures
        r == spec_steps_from_l2_gas(l2_gas, step_gas_cost),
{
    if step_gas_cost == 0 {
        u64::MAX
    } else {
        l2_gas / (step_gas_cost as u64)
    }
}

/// The step budget of one phase of the transaction.
pub fn max_steps(tx_context: &TransactionContext, mode: ExecutionMode, limit_steps_by_resources: bool) -> (r:
    usize)
    ensures
        r == spec_max_steps(*tx_context, mode, limit_steps_by_resources),
        r <= u32::MAX,
{
    let constants = &tx_context.block_context.versioned_constants;
    let block_bound: u32 = match mode {
        ExecutionMode::Validate => constants.validate_max_n_steps,
        ExecutionMode::Execute => constants.invoke_tx_max_n_steps,
    };
    if !limit_steps_by_resources || !tx_context.tx_info.enforce_fee() {
        return block_bound as usize;
    }
    let step_cost = &constants.gas_costs.vm_resource_fee_cost.n_steps;
    let tx_bound: u64 = match tx_context.tx_info {
        TransactionInfo::Deprecated(info) => {
            let prices = tx_context.get_gas_prices();
            let gas = gas_from_fee(info.max_fee, prices.l1_gas_price.get());
            steps_from_l1_gas(gas, step_cost)
        },
        TransactionInfo::Current(info) => match info.resource_bounds {
            ValidResourceBounds::L1Gas(l1) => steps_from_l1_gas(l1.max_amount, step_cost),
            ValidResourceBounds::AllResources(all) => steps_from_l2_gas(
                all.l2_gas.max_amount,
                constants.gas_costs.l2_gas_costs.step_gas_cost,
            ),
        },
    };
    if tx_bound < block_bound as u64 {
        tx_bound as usize
    } else {
        block_bound as usize
    }
}

/// The steps that `max_fee` buys before any cap: the fee over the price,
/// rounded down, times `denom` over `numer`, rounded down.
pub open spec fn spec_uncapped_steps_from_fee(max_fee: nat, price: nat, numer: nat, denom: nat) -> nat
    recommends
        price > 0,
        numer > 0,
{
    (max_fee / price) * denom / numer
}

/// What is lost to rounding when the fee is doubled: twice the remainder
/// of the conversion of gas into steps, plus one more unit of gas where the
/// doubled fee crosses a multiple of the price.
pub open spec fn spec_doubling_slack(max_fee: nat, price: nat, numer: nat, denom: nat) -> nat
    recommends
        price > 0,
        numer > 0,
{
    let carried: nat = if 2 * (max_fee % price) >= price {
        denom
    } else {
        0
    };
    2 * (((max_fee / price) * denom) % numer) + carried
}

/// Doubling the maximal fee doubles the steps it buys exactly when nothing
/// is lost to rounding: the slack of the doubling stays below the
/// numerator of the step cost.
pub proof fn lemma_doubling_max_fee_doubles_uncapped_steps(
    max_fee: nat,
    price: nat,
    numer: nat,
    denom: nat,
)
    requires
        price > 0,
        numer > 0,
    ensures
        spec_uncapped_steps_from_fee(2 * max_fee, price, numer, denom) == 2
            * spec_uncapped_steps_from_fee(max_fee, price, numer, denom) <==> spec_doubling_slack(
            max_fee,
            price,
            numer,
            denom,
        ) < numer,
{
    let g = max_fee / price;
    let r = max_fee % price;
    let p = price as int;
    let n = numer as int;
    lemma_fundamental_div_mod(max_fee as int, p);
    assert(max_fee == p * (g as int) + r);
    let e: int = if 2 * r >= price {
        1
    } else {
        0
    };
    // The quotient of the doubled fee is twice the quotient, plus the carry.
    assert((2 * max_fee) as int == p * (2 * g + e) + (2 * r - e * p)) by (nonlinear_arith)
        requires
            max_fee == p * (g as int) + r,
    ;
    lemma_div_multiples_vanish_fancy(2 * g + e, 2 * r - e * p, p);
    assert((p * (2 * g + e) + (2 * r - e * p)) / p == 2 * g + e);
    let g2 = (2 * max_fee) / price;
    assert(g2 == 2 * g + e);
    // The same for the conversion of gas into steps.
    let a = (g * denom) as int;
    let q = a / n;
    let s = a % n;
    lemma_fundamental_div_mod(a, n);
    assert(a == n * q + s);
    let extra = 2 * s + e * denom;
    assert((g2 * denom) as int == n * (2 * q) + extra) by (nonlinear_arith)
        requires
            g2 == 2 * g + e,
            a == (g * denom) as int,
            a == n * q + s,
            extra == 2 * s + e * denom,
    ;
    let k = extra / n;
    let m = extra % n;
    lemma_fundamental_div_mod(extra, n);
    assert(0 <= e * denom) by (nonlinear_arith)
        requires
            0 <= e,
    ;
    assert((g2 * denom) as int == n * (2 * q + k) + m) by (nonlinear_arith)
        requires
            (g2 * denom) as int == n * (2 * q) + extra,
            extra == n * k + m,
    ;
    lemma_div_multiples_vanish_fancy(2 * q + k, m, n);
    assert((n * (2 * q + k) + m) / n == 2 * q + k);
    assert(spec_uncapped_steps_from_fee(2 * max_fee, price, numer, denom) == 2 * q + k);
    assert(spec_uncapped_steps_from_fee(max_fee, price, numer, denom) == q);
    assert(e * denom == if 2 * r >= price {
        denom as int
    } else {
        0
    }) by (nonlinear_arith)
        requires
            e == if 2 * r >= price {
                1int
            } else {
                0
            },
    ;
    assert(spec_doubling_slack(max_fee, price, numer, denom) == extra);
    if extra < n {
        vstd::arithmetic::div_mod::lemma_basic_div(extra, n);
        assert(k == 0);
    } else {
        assert(k >= 1) by {
            if k <= 0 {
                assert(n * k <= 0) by (nonlinear_arith)
                    requires
                        k <= 0,
                        n > 0,
                ;
            }
        }
    }
}

/// Doubling the maximal fee of a legacy transaction doubles its step
/// budget, as long as neither budget is cut by a ceiling (the block's limit
/// or the width of a gas amount) and nothing is lost to rounding.
pub proof fn lemma_doubling_max_fee_doubles_max_steps(
    single: TransactionContext,
    doubled: TransactionContext,
    mode: ExecutionMode,
)
    requires
        single.block_context == doubled.block_context,
        single.spec_gas_prices().valid(),
        single.block_context.versioned_constants.gas_costs.vm_resource_fee_cost.n_steps.denom() > 0,
        single.tx_info matches TransactionInfo::Deprecated(low) && doubled.tx_info
            matches TransactionInfo::Deprecated(high) && low.max_fee > 0 && high.max_fee == 2
            * low.max_fee && ({
            let price = single.spec_gas_prices().l1_gas_price.get() as nat;
            let cost = single.block_context.versioned_constants.gas_costs.vm_resource_fee_cost.n_steps;
            &&& cost.numer() > 0
            &&& high.max_fee as nat / price <= u64::MAX
            &&& spec_uncapped_steps_from_fee(
                high.max_fee as nat,
                price,
                cost.numer() as nat,
                cost.denom() as nat,
            ) <= spec_block_steps_bound(single, mode)
            &&& spec_doubling_slack(
                low.max_fee as nat,
                price,
                cost.numer() as nat,
                cost.denom() as nat,
            ) < cost.numer()
        }),
    ensures
        spec_max_steps(doubled, mode, true) == 2 * spec_max_steps(single, mode, true),
{
    let low = single.tx_info->Deprecated_0;
    let high = doubled.tx_info->Deprecated_0;
    let price = single.spec_gas_prices().l1_gas_price.get() as nat;
    let cost = single.block_context.versioned_constants.gas_costs.vm_resource_fee_cost.n_steps;
    let n = cost.numer() as nat;
    let d = cost.denom() as nat;
    let f = low.max_fee as nat;
    lemma_doubling_max_fee_doubles_uncapped_steps(f, price, n, d);
    let steps_low = spec_uncapped_steps_from_fee(f, price, n, d);
    let steps_high = spec_uncapped_steps_from_fee(2 * f, price, n, d);
    assert(steps_high == 2 * steps_low);
    vstd::arithmetic::div_mod::lemma_div_is_ordered(f as int, (2 * f) as int, price as int);
    assert(f / price <= (2 * f) / price);
    assert(spec_gas_from_fee(low.max_fee, price as u128) == f / price);
    assert(spec_gas_from_fee(high.max_fee, price as u128) == (2 * f) / price);
    assert(doubled.spec_gas_prices() == single.spec_gas_prices());
    assert(spec_steps_from_l1_gas((f / price) as u64, cost) == steps_low);
    assert(spec_steps_from_l1_gas(((2 * f) / price) as u64, cost) == steps_high);
    assert(spec_block_steps_bound(doubled, mode) == spec_block_steps_bound(single, mode));
}

} // verus!
