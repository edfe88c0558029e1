//! How the charge grows with the work: more steps never cost less, and
//! steps that come in equal portions cost in equal portions.

use vstd::prelude::*;
use vstd::arithmetic::div_mod::{
    lemma_div_is_ordered,
    lemma_fundamental_div_mod,
    lemma_hoist_over_denominator,
    lemma_mod_multiples_vanish,
};
use crate::gas::{ceil_div, GasPriceVector, GasVector};
use crate::resources::{
    spec_max_builtin_gas,
    spec_priced_steps,
    spec_vm_l1_gas,
    spec_vm_l2_gas,
    ComputationResources,
    L2GasCosts,
    VmResourceCosts,
    N_BUILTINS,
};

verus! {

/// Whether two computations count the same but for their steps: the same
/// memory holes and the same uses of each circuit.
pub open spec fn same_but_steps(a: ComputationResources, b: ComputationResources) -> bool {
    &&& a.vm_resources.n_memory_holes == b.vm_resources.n_memory_holes
    &&& a.vm_resources.builtin_instance_counter@ == b.vm_resources.builtin_instance_counter@
}

/// Whether `more` is charged for `depth` portions of `per_level` steps on
/// top of what `fewer` is charged for, and counts the same otherwise. It
/// does not matter which of the steps were burned by a part that is rolled
/// back.
pub open spec fn steps_apart(
    fewer: ComputationResources,
    more: ComputationResources,
    per_level: nat,
    depth: nat,
) -> bool {
    &&& same_but_steps(fewer, more)
    &&& more.spec_total_charged_steps() == fewer.spec_total_charged_steps() + depth * per_level
}

/// Rounding up keeps the order of quotients.
pub proof fn lemma_ceil_div_monotonic(a: nat, b: nat, d: nat)
    requires
        a <= b,
        d > 0,
    ensures
        ceil_div(a, d) <= ceil_div(b, d),
{
    lemma_div_is_ordered(a as int, b as int, d as int);
    lemma_fundamental_div_mod(a as int, d as int);
    lemma_fundamental_div_mod(b as int, d as int);
    if a / d == b / d {
        // With equal quotients the remainders are in the order of the
        // dividends.
        assert(a % d <= b % d);
    }
}

/// Adding whole multiples of the divisor adds as many to the quotient
/// that is rounded up.
pub proof fn lemma_ceil_div_plus_multiples(a: nat, j: nat, d: nat)
    requires
        d > 0,
    ensures
        ceil_div(a + j * d, d) == ceil_div(a, d) + j,
{
    lemma_hoist_over_denominator(a as int, j as int, d);
    lemma_mod_multiples_vanish(j as int, a as int, d as int);
    assert(d * j + a == a + j * d) by (nonlinear_arith);
    assert(j * d >= 0) by (nonlinear_arith);
}

/// More steps never cost less L1 gas.
pub proof fn lemma_l1_gas_monotonic(
    fewer: ComputationResources,
    more: ComputationResources,
    costs: VmResourceCosts,
)
    requires
        same_but_steps(fewer, more),
        fewer.spec_total_charged_steps() <= more.spec_total_charged_steps(),
        costs.n_steps.denom() > 0,
    ensures
        spec_vm_l1_gas(fewer, costs) <= spec_vm_l1_gas(more, costs),
{
    let n = costs.n_steps.numer() as nat;
    let low = spec_priced_steps(fewer);
    let high = spec_priced_steps(more);
    assert(low * n <= high * n) by (nonlinear_arith)
        requires
            low <= high,
    ;
    lemma_ceil_div_monotonic(low * n, high * n, costs.n_steps.denom() as nat);
}

/// Each further step costs the same L2 gas: `depth` portions of steps cost
/// `depth` times what one portion costs.
pub proof fn lemma_l2_gas_linear(
    fewer: ComputationResources,
    more: ComputationResources,
    costs: L2GasCosts,
    per_level: nat,
    depth: nat,
)
    requires
        steps_apart(fewer, more, per_level, depth),
    ensures
        spec_vm_l2_gas(more, costs) == spec_vm_l2_gas(fewer, costs) + depth * (per_level
            * costs.step_gas_cost),
        spec_vm_l2_gas(more, costs) >= spec_vm_l2_gas(fewer, costs),
{
    let c = costs.step_gas_cost as nat;
    let low = fewer.spec_total_charged_steps();
    let high = more.spec_total_charged_steps();
    assert(high * c == low * c + depth * (per_level * c)) by (nonlinear_arith)
        requires
            high == low + depth * per_level,
    ;
    assert(depth * (per_level * c) >= 0) by (nonlinear_arith);
}

/// Where the steps are what is charged for, and a portion of steps costs
/// a whole number of units of L1 gas, `depth` portions cost `depth` times
/// what one portion costs.
pub proof fn lemma_l1_gas_linear(
    fewer: ComputationResources,
    more: ComputationResources,
    costs: VmResourceCosts,
    per_level: nat,
    depth: nat,
)
    requires
        steps_apart(fewer, more, per_level, depth),
        costs.n_steps.denom() > 0,
        (per_level * costs.n_steps.numer()) % (costs.n_steps.denom() as int) == 0,
        spec_max_builtin_gas(
            fewer.vm_resources.builtin_instance_counter@,
            costs.builtins@,
            N_BUILTINS as nat,
        ) <= costs.n_steps.spec_cost_of(spec_priced_steps(fewer)),
    ensures
        spec_vm_l1_gas(more, costs) == spec_vm_l1_gas(fewer, costs) + depth * ((per_level
            * costs.n_steps.numer()) / (costs.n_steps.denom() as int)),
{
    let n = costs.n_steps.numer() as nat;
    let d = costs.n_steps.denom() as nat;
    let low = spec_priced_steps(fewer);
    let high = spec_priced_steps(more);
    let portion = ((per_level * n) as int / (d as int)) as nat;
    assert(high == low + depth * per_level);
    lemma_fundamental_div_mod((per_level * n) as int, d as int);
    assert(per_level * n == d * portion);
    assert(high * n == low * n + (depth * portion) * d) by (nonlinear_arith)
        requires
            high == low + depth * per_level,
            per_level * n == d * portion,
    ;
    assert(depth * portion >= 0) by (nonlinear_arith)
        requires
            depth >= 0,
            portion >= 0,
    ;
    lemma_ceil_div_plus_multiples(low * n, (depth * portion) as nat, d);
}

/// The fee of gas that grows in equal portions grows in equal portions:
/// `depth` portions on top of a vector cost `depth` times what one portion
/// costs on top of it.
pub proof fn lemma_fee_scales_with_gas(
    base: GasVector,
    one_more: GasVector,
    many_more: GasVector,
    depth: nat,
    prices: GasPriceVector,
)
    requires
        base.l1_gas <= one_more.l1_gas,
        base.l1_data_gas <= one_more.l1_data_gas,
        base.l2_gas <= one_more.l2_gas,
        many_more.l1_gas == base.l1_gas + depth * (one_more.l1_gas - base.l1_gas),
        many_more.l1_data_gas == base.l1_data_gas + depth * (one_more.l1_data_gas
            - base.l1_data_gas),
        many_more.l2_gas == base.l2_gas + depth * (one_more.l2_gas - base.l2_gas),
    ensures
        many_more.spec_cost(prices) - base.spec_cost(prices) == depth * (one_more.spec_cost(prices)
            - base.spec_cost(prices)),
        one_more.spec_cost(prices) >= base.spec_cost(prices),
{
    let l1_price = prices.l1_gas_price.get() as int;
    let data_price = prices.l1_data_gas_price.get() as int;
    let l2_price = prices.l2_gas_price.get() as int;
    let a1 = base.l1_gas as int;
    let ad = base.l1_data_gas as int;
    let a2 = base.l2_gas as int;
    let d1 = one_more.l1_gas as int - a1;
    let dd = one_more.l1_data_gas as int - ad;
    let d2 = one_more.l2_gas as int - a2;
    let k = depth as int;
    assert((a1 + k * d1) * l1_price - a1 * l1_price == k * ((a1 + d1) * l1_price - a1 * l1_price)) by (nonlinear_arith);
    assert((ad + k * dd) * data_price - ad * data_price == k * ((ad + dd) * data_price - ad * data_price)) by (nonlinear_arith);
    assert((a2 + k * d2) * l2_price - a2 * l2_price == k * ((a2 + d2) * l2_price - a2 * l2_price)) by (nonlinear_arith);
    assert(k * ((a1 + d1) * l1_price - a1 * l1_price) + k * ((ad + dd) * data_price - ad * data_price) + k * ((a2 + d2) * l2_price - a2
        * l2_price) == k * (((a1 + d1) * l1_price - a1 * l1_price) + ((ad + dd) * data_price - ad * data_price) + ((a2 + d2) * l2_price
        - a2 * l2_price))) by (nonlinear_arith);
    crate::gas::lemma_cost_monotonic(base, one_more, prices);
    assert((many_more.l1_gas as nat) * (l1_price as nat) == (a1 + k * d1) * l1_price);
    assert((many_more.l1_data_gas as nat) * (data_price as nat) == (ad + k * dd) * data_price);
    assert((many_more.l2_gas as nat) * (l2_price as nat) == (a2 + k * d2) * l2_price);
    assert((one_more.l1_gas as nat) * (l1_price as nat) == (a1 + d1) * l1_price);
    assert((one_more.l1_data_gas as nat) * (data_price as nat) == (ad + dd) * data_price);
    assert((one_more.l2_gas as nat) * (l2_price as nat) == (a2 + d2) * l2_price);
}

} // verus!
