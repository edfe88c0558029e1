//! Raw execution counters and what they cost in gas under a block's cost
//! model.

use vstd::prelude::*;
use vstd::array::*;
use crate::gas::{ceil_div, GasVector, GasVectorComputationMode};

verus! {

/// The number of specialised circuits the machine offers.
pub const N_BUILTINS: usize = 12;

/// A specialised circuit of the machine.
#[derive(Clone, Copy, Debug, PartialEq, Eq, Hash, Structural)]
pub enum BuiltinName {
    Output,
    RangeCheck,
    Pedersen,
    Ecdsa,
    Keccak,
    Bitwise,
    EcOp,
    Poseidon,
    SegmentArena,
    RangeCheck96,
    AddMod,
    MulMod,
}

impl BuiltinName {
    /// The slot of this circuit in a counter or a cost table.
    pub open spec fn spec_index(self) -> int {
        match self {
            BuiltinName::Output => 0,
            BuiltinName::RangeCheck => 1,
            BuiltinName::Pedersen => 2,
            BuiltinName::Ecdsa => 3,
            BuiltinName::Keccak => 4,
            BuiltinName::Bitwise => 5,
            BuiltinName::EcOp => 6,
            BuiltinName::Poseidon => 7,
            BuiltinName::SegmentArena => 8,
            BuiltinName::RangeCheck96 => 9,
            BuiltinName::AddMod => 10,
            BuiltinName::MulMod => 11,
        }
    }

    /// The slot of this circuit in a counter or a cost table.
    pub fn index(&self) -> (r: usize)
        ensures
            r == self.spec_index(),
            r < N_BUILTINS,
    {
        match self {
            BuiltinName::Output => 0,
            BuiltinName::RangeCheck => 1,
            BuiltinName::Pedersen => 2,
            BuiltinName::Ecdsa => 3,
            BuiltinName::Keccak => 4,
            BuiltinName::Bitwise => 5,
            BuiltinName::EcOp => 6,
            BuiltinName::Poseidon => 7,
            BuiltinName::SegmentArena => 8,
            BuiltinName::RangeCheck96 => 9,
            BuiltinName::AddMod => 10,
            BuiltinName::MulMod => 11,
        }
    }
}

/// What the machine counted while it ran: steps, memory holes, and how
/// often each circuit was used.
#[derive(Clone, Copy, Debug, PartialEq, Eq)]
pub struct ExecutionResources {
    pub n_steps: u64,
    pub n_memory_holes: u64,
    pub builtin_instance_counter: [u64; 12],
}

impl ExecutionResources {
    /// Nothing counted.
    pub fn empty() -> (r: ExecutionResources)
        ensures
            r.spec_is_empty(),
    {
        ExecutionResources {
            n_steps: 0,
            n_memory_holes: 0,
            builtin_instance_counter: [0, 0, 0, 0, 0, 0, 0, 0, 0, 0, 0, 0],
        }
    }

    /// `n_steps` steps and nothing else.
    pub fn from_steps(n_steps: u64) -> (r: ExecutionResources)
        ensures
            r.n_steps == n_steps,
            r.n_memory_holes == 0,
            forall|i: int| 0 <= i < N_BUILTINS ==> r.builtin_instance_counter@[i] == 0,
    {
        ExecutionResources {
            n_steps,
            n_memory_holes: 0,
            builtin_instance_counter: [0, 0, 0, 0, 0, 0, 0, 0, 0, 0, 0, 0],
        }
    }

    /// How often the given circuit was used.
    pub fn builtin_count(&self, name: BuiltinName) -> (r: u64)
        ensures
            r == self.builtin_instance_counter@[name.spec_index()],
    {
        self.builtin_instance_counter[name.index()]
    }

    /// The same counters with the given circuit's count replaced.
    pub fn with_builtin(&self, name: BuiltinName, count: u64) -> (r: ExecutionResources)
        ensures
            r.n_steps == self.n_steps,
            r.n_memory_holes == self.n_memory_holes,
            r.builtin_instance_counter@ == self.builtin_instance_counter@.update(
                name.spec_index(),
                count,
            ),
    {
        let mut counter = self.builtin_instance_counter;
        counter[name.index()] = count;
        ExecutionResources {
            n_steps: self.n_steps,
            n_memory_holes: self.n_memory_holes,
            builtin_instance_counter: counter,
        }
    }

    /// Whether every counter of the sum fits.
    pub open spec fn spec_add_fits(self, rhs: ExecutionResources) -> bool {
        &&& self.n_steps + rhs.n_steps <= u64::MAX
        &&& self.n_memory_holes + rhs.n_memory_holes <= u64::MAX
        &&& forall|i: int|
            0 <= i < N_BUILTINS ==> self.builtin_instance_counter@[i]
                + rhs.builtin_instance_counter@[i] <= u64::MAX
    }

    /// Whether `sum` is the counter-wise sum of `self` and `rhs`.
    pub open spec fn spec_is_sum(self, rhs: ExecutionResources, sum: ExecutionResources) -> bool {
        &&& sum.n_steps == self.n_steps + rhs.n_steps
        &&& sum.n_memory_holes == self.n_memory_holes + rhs.n_memory_holes
        &&& forall|i: int|
            0 <= i < N_BUILTINS ==> sum.builtin_instance_counter@[i]
                == self.builtin_instance_counter@[i] + rhs.builtin_instance_counter@[i]
    }

    /// The counter-wise sum of `self` and `rhs`, where it fits.
    pub open spec fn spec_add(self, rhs: ExecutionResources) -> ExecutionResources {
        choose|sum: ExecutionResources| self.spec_is_sum(rhs, sum)
    }

    /// The counter-wise sum, where it exists, is the only one.
    pub proof fn lemma_sum_is_unique(self, rhs: ExecutionResources, sum: ExecutionResources)
        requires
            self.spec_is_sum(rhs, sum),
        ensures
            sum == self.spec_add(rhs),
    {
        let other = self.spec_add(rhs);
        assert(self.spec_is_sum(rhs, other));
        assert(sum.builtin_instance_counter@ =~= other.builtin_instance_counter@);
        assert(sum.builtin_instance_counter =~= other.builtin_instance_counter);
    }

    /// Whether every counter is zero.
    pub open spec fn spec_is_empty(self) -> bool {
        &&& self.n_steps == 0
        &&& self.n_memory_holes == 0
        &&& forall|i: int| 0 <= i < N_BUILTINS ==> self.builtin_instance_counter@[i] == 0
    }

    /// Merges the counters of a call that returned into those of its
    /// caller; `None` when a counter overflows.
    pub fn checked_add(&self, rhs: &ExecutionResources) -> (r: Option<ExecutionResources>)
        ensures
            r is Some <==> self.spec_add_fits(*rhs),
            r matches Some(sum) ==> self.spec_is_sum(*rhs, sum) && sum == self.spec_add(*rhs),
    {
        let n_steps = match self.n_steps.checked_add(rhs.n_steps) {
            Some(x) => x,
            None => { return None; },
        };
        let n_memory_holes = match self.n_memory_holes.checked_add(rhs.n_memory_holes) {
            Some(x) => x,
            None => { return None; },
        };
        let mut counter = self.builtin_instance_counter;
        let mut i: usize = 0;
        while i < N_BUILTINS
            invariant
                i <= N_BUILTINS,
                forall|j: int|
                    0 <= j < i ==> counter@[j] == self.builtin_instance_counter@[j]
                        + rhs.builtin_instance_counter@[j],
                forall|j: int|
                    0 <= j < i ==> self.builtin_instance_counter@[j]
                        + rhs.builtin_instance_counter@[j] <= u64::MAX,
                forall|j: int| i <= j < N_BUILTINS ==> counter@[j] == self.builtin_instance_counter@[j],
            decreases N_BUILTINS - i,
        {
            let s = match self.builtin_instance_counter[i].checked_add(
                rhs.builtin_instance_counter[i],
            ) {
                Some(x) => x,
                None => { return None; },
            };
            counter[i] = s;
            i += 1;
        }
        let sum = ExecutionResources { n_steps, n_memory_holes, builtin_instance_counter: counter };
        proof {
            self.lemma_sum_is_unique(*rhs, sum);
        }
        Some(sum)
    }
}

/// The resources a transaction is charged for: what ran to completion, and
/// the steps burned by a sub-execution that was rolled back.
#[derive(Clone, Copy, Debug, PartialEq, Eq)]
pub struct ComputationResources {
    pub vm_resources: ExecutionResources,
    pub n_reverted_steps: u64,
}

impl ComputationResources {
    /// The steps charged for: those that ran to completion and those of the
    /// reverted part.
    pub open spec fn spec_total_charged_steps(self) -> nat {
        (self.vm_resources.n_steps + self.n_reverted_steps) as nat
    }

    /// The steps charged for, or `None` when the sum does not fit.
    pub fn total_charged_steps(&self) -> (r: Option<u64>)
        ensures
            r is Some <==> self.spec_total_charged_steps() <= u64::MAX,
            r matches Some(n) ==> n == self.spec_total_charged_steps(),
    {
        self.vm_resources.n_steps.checked_add(self.n_reverted_steps)
    }
}

/// A cost per unit as a fraction; the denominator is never zero.
#[derive(Clone, Copy, Debug)]
pub struct ResourceCost {
    numer: u32,
    denom: u32,
}

impl ResourceCost {
    #[verifier::type_invariant]
    spec fn denominator_positive(self) -> bool {
        self.denom > 0
    }

    /// The numerator.
    pub closed spec fn spec_numer(&self) -> u32 {
        self.numer
    }

    /// The denominator.
    pub closed spec fn spec_denom(&self) -> u32 {
        self.denom
    }

    /// The fraction `numer / denom`, unless `denom` is zero.
    pub fn new(numer: u32, denom: u32) -> (r: Option<ResourceCost>)
        ensures
            r is Some <==> denom > 0,
            r matches Some(c) ==> c.spec_numer() == numer && c.spec_denom() == denom,
    {
        if denom > 0 {
            Some(ResourceCost { numer, denom })
        } else {
            None
        }
    }

    /// The numerator.
    #[verifier::when_used_as_spec(spec_numer)]
    pub fn numer(&self) -> (r: u32)
        ensures
            r == self.spec_numer(),
    {
        self.numer
    }

    /// The denominator; it is positive.
    #[verifier::when_used_as_spec(spec_denom)]
    pub fn denom(&self) -> (r: u32)
        ensures
            r == self.spec_denom(),
            r > 0,
    {
        proof {
            use_type_invariant(self);
        }
        self.denom
    }

    /// The cost of `usage` units, rounded up.
    pub open spec fn spec_cost_of(self, usage: nat) -> nat {
        ceil_div(usage * (self.numer() as nat), self.denom() as nat)
    }

    /// The cost of `usage` units, rounded up.
    pub fn cost_of(&self, usage: u128) -> (r: u128)
        requires
            usage <= 0xffff_ffff_ffff_ffff_ffff_ffff,
        ensures
            r == self.spec_cost_of(usage as nat),
    {
        let n: u128 = self.numer() as u128;
        let d: u128 = self.denom() as u128;
        assert(usage * n <= 0xffff_ffff_ffff_ffff_ffff_ffff * 0xffff_ffff) by (nonlinear_arith)
            requires
                usage <= 0xffff_ffff_ffff_ffff_ffff_ffff,
                n <= 0xffff_ffff,
        ;
        let product: u128 = usage * n;
        if product % d == 0 {
            product / d
        } else {
            product / d + 1
        }
    }
}

/// What the machine's counters cost in L1 gas.
#[derive(Clone, Copy, Debug)]
pub struct VmResourceCosts {
    pub n_steps: ResourceCost,
    pub builtins: [ResourceCost; 12],
}

/// What the machine's counters cost in L2 gas.
#[derive(Clone, Copy, Debug, PartialEq, Eq)]
pub struct L2GasCosts {
    pub step_gas_cost: u32,
    pub memory_hole_gas_cost: u32,
    pub builtins: [u32; 12],
}

/// What publishing state changes costs.
#[derive(Clone, Copy, Debug, PartialEq, Eq, Structural)]
pub struct DaGasCosts {
    /// L1 data gas per published word when blobs are used.
    pub data_gas_per_field_element: u32,
    /// L1 gas per published word when calldata is used.
    pub gas_per_da_word: u32,
    /// L1 gas saved per modified contract when calldata is used.
    pub modified_contract_discount: u32,
    /// L1 gas saved per storage update when calldata is used.
    pub storage_update_discount: u32,
}

/// How many cells of each kind a transaction changed.
#[derive(Clone, Copy, Debug, PartialEq, Eq, Hash, Structural)]
pub struct StateChangesCount {
    pub n_storage_updates: usize,
    pub n_class_hash_updates: usize,
    pub n_compiled_class_hash_updates: usize,
    pub n_modified_contracts: usize,
}

impl Default for StateChangesCount {
    fn default() -> (r: StateChangesCount)
        ensures
            r == (StateChangesCount {
                n_storage_updates: 0,
                n_class_hash_updates: 0,
                n_compiled_class_hash_updates: 0,
                n_modified_contracts: 0,
            }),
    {
        StateChangesCount {
            n_storage_updates: 0,
            n_class_hash_updates: 0,
            n_compiled_class_hash_updates: 0,
            n_modified_contracts: 0,
        }
    }
}

/// The number of words published for the given changes: two per modified
/// contract, one per class hash update, two per compiled class hash update
/// and two per storage update.
pub open spec fn onchain_data_segment_length(count: StateChangesCount) -> nat {
    (2 * count.n_modified_contracts + count.n_class_hash_updates + 2
        * count.n_compiled_class_hash_updates + 2 * count.n_storage_updates) as nat
}

/// The gas that publishing the given changes costs, before the check that
/// it fits: L1 data gas with blobs, L1 gas net of discounts with calldata.
pub open spec fn spec_da_gas(count: StateChangesCount, use_kzg_da: bool, costs: DaGasCosts) -> nat {
    let length = onchain_data_segment_length(count);
    if use_kzg_da {
        length * (costs.data_gas_per_field_element as nat)
    } else {
        let gross = length * (costs.gas_per_da_word as nat);
        let discount = (count.n_modified_contracts as nat) * (
        costs.modified_contract_discount as nat) + (count.n_storage_updates as nat) * (
        costs.storage_update_discount as nat);
        if gross >= discount {
            (gross - discount) as nat
        } else {
            0
        }
    }
}

/// The gas vector of publishing the given changes; `None` when the amount
/// does not fit. It does not depend on how the transaction bounds its
/// resources.
pub fn get_da_gas_cost(count: &StateChangesCount, use_kzg_da: bool, costs: &DaGasCosts) -> (r:
    Option<GasVector>)
    ensures
        r is Some <==> spec_da_gas(*count, use_kzg_da, *costs) <= u64::MAX,
        r matches Some(gas) ==> gas == if use_kzg_da {
            GasVector {
                l1_gas: 0,
                l1_data_gas: spec_da_gas(*count, use_kzg_da, *costs) as u64,
                l2_gas: 0,
            }
        } else {
            GasVector {
                l1_gas: spec_da_gas(*count, use_kzg_da, *costs) as u64,
                l1_data_gas: 0,
                l2_gas: 0,
            }
        },
{
    let length: u128 = 2 * (count.n_modified_contracts as u128) + (
    count.n_class_hash_updates as u128) + 2 * (count.n_compiled_class_hash_updates as u128) + 2 * (
    count.n_storage_updates as u128);
    assert(length == onchain_data_segment_length(*count));
    if use_kzg_da {
        assert(length * (costs.data_gas_per_field_element as u128) <= 0x7_ffff_ffff_ffff_ffff
            * 0xffff_ffff) by (nonlinear_arith)
            requires
                length <= 0x7_ffff_ffff_ffff_ffff,
                costs.data_gas_per_field_element <= 0xffff_ffff,
        ;
        let amount: u128 = length * (costs.data_gas_per_field_element as u128);
        if amount > u64::MAX as u128 {
            None
        } else {
            Some(GasVector::from_l1_data_gas(amount as u64))
        }
    } else {
        assert(length * (costs.gas_per_da_word as u128) <= 0x7_ffff_ffff_ffff_ffff * 0xffff_ffff)
            by (nonlinear_arith)
            requires
                length <= 0x7_ffff_ffff_ffff_ffff,
                costs.gas_per_da_word <= 0xffff_ffff,
        ;
        let gross: u128 = length * (costs.gas_per_da_word as u128);
        assert((count.n_modified_contracts as u128) * (costs.modified_contract_discount as u128)
            <= 0xffff_ffff_ffff_ffff * 0xffff_ffff) by (nonlinear_arith)
            requires
                count.n_modified_contracts <= 0xffff_ffff_ffff_ffff,
                costs.modified_contract_discount <= 0xffff_ffff,
        ;
        assert((count.n_storage_updates as u128) * (costs.storage_update_discount as u128)
            <= 0xffff_ffff_ffff_ffff * 0xffff_ffff) by (nonlinear_arith)
            requires
                count.n_storage_updates <= 0xffff_ffff_ffff_ffff,
                costs.storage_update_discount <= 0xffff_ffff,
        ;
        let discount: u128 = (count.n_modified_contracts as u128) * (
        costs.modified_contract_discount as u128) + (count.n_storage_updates as u128) * (
        costs.storage_update_discount as u128);
        let amount: u128 = if gross >= discount {
            gross - discount
        } else {
            0
        };
        if amount > u64::MAX as u128 {
            None
        } else {
            Some(GasVector::from_l1_gas(amount as u64))
        }
    }
}

/// The largest cost among the first `n` circuits, each rounded up.
pub open spec fn spec_max_builtin_gas(counter: Seq<u64>, costs: Seq<ResourceCost>, n: nat) -> nat
    decreases n,
{
    if n == 0 {
        0
    } else {
        let rest = spec_max_builtin_gas(counter, costs, (n - 1) as nat);
        let this = costs[n - 1].spec_cost_of(counter[n - 1] as nat);
        if this > rest {
            this
        } else {
            rest
        }
    }
}

/// The steps that are priced: those counted, those burned by a reverted
/// part, and the memory holes.
pub open spec fn spec_priced_steps(computation: ComputationResources) -> nat {
    (computation.vm_resources.n_steps + computation.n_reverted_steps
        + computation.vm_resources.n_memory_holes) as nat
}

/// The L1 gas of a computation when execution is folded into L1 gas: the
/// largest of the step cost and the circuit costs, each rounded up.
pub open spec fn spec_vm_l1_gas(computation: ComputationResources, costs: VmResourceCosts) -> nat {
    let steps = costs.n_steps.spec_cost_of(spec_priced_steps(computation));
    let builtins = spec_max_builtin_gas(
        computation.vm_resources.builtin_instance_counter@,
        costs.builtins@,
        N_BUILTINS as nat,
    );
    if steps > builtins {
        steps
    } else {
        builtins
    }
}

/// The L2 gas of the first `n` circuits: each count times its cost, summed.
pub open spec fn spec_sum_builtin_l2_gas(counter: Seq<u64>, costs: Seq<u32>, n: nat) -> nat
    decreases n,
{
    if n == 0 {
        0
    } else {
        spec_sum_builtin_l2_gas(counter, costs, (n - 1) as nat) + (counter[n - 1] as nat) * (
        costs[n - 1] as nat)
    }
}

/// The L2 gas of a computation when every axis is priced on its own: each
/// counter times its cost, summed.
pub open spec fn spec_vm_l2_gas(computation: ComputationResources, costs: L2GasCosts) -> nat {
    (computation.vm_resources.n_steps + computation.n_reverted_steps) as nat * (
    costs.step_gas_cost as nat) + (computation.vm_resources.n_memory_holes as nat) * (
    costs.memory_hole_gas_cost as nat) + spec_sum_builtin_l2_gas(
        computation.vm_resources.builtin_instance_counter@,
        costs.builtins@,
        N_BUILTINS as nat,
    )
}

/// The L1 gas of a computation when execution is folded into L1 gas.
pub fn vm_l1_gas(computation: &ComputationResources, costs: &VmResourceCosts) -> (r: u128)
    ensures
        r == spec_vm_l1_gas(*computation, *costs),
{
    let steps: u128 = computation.vm_resources.n_steps as u128 + computation.n_reverted_steps as u128
        + computation.vm_resources.n_memory_holes as u128;
    let mut best: u128 = 0;
    let mut i: usize = 0;
    while i < N_BUILTINS
        invariant
            i <= N_BUILTINS,
            best == spec_max_builtin_gas(
                computation.vm_resources.builtin_instance_counter@,
                costs.builtins@,
                i as nat,
            ),
        decreases N_BUILTINS - i,
    {
        let this = costs.builtins[i].cost_of(computation.vm_resources.builtin_instance_counter[i] as u128);
        if this > best {
            best = this;
        }
        i += 1;
    }
    let step_gas = costs.n_steps.cost_of(steps);
    if step_gas > best {
        step_gas
    } else {
        best
    }
}

/// The sum of the first `n` circuit costs stays below `n` times the
/// largest product of a count and a cost.
proof fn lemma_sum_builtin_l2_gas_bound(counter: Seq<u64>, costs: Seq<u32>, n: nat)
    requires
        n <= counter.len(),
        n <= costs.len(),
    ensures
        spec_sum_builtin_l2_gas(counter, costs, n) <= n * (0xffff_ffff_ffff_ffff * 0xffff_ffff),
    decreases n,
{
    if n > 0 {
        lemma_sum_builtin_l2_gas_bound(counter, costs, (n - 1) as nat);
        let c = counter[n - 1] as nat;
        let k = costs[n - 1] as nat;
        assert(c * k <= 0xffff_ffff_ffff_ffff * 0xffff_ffff) by (nonlinear_arith)
            requires
                c <= 0xffff_ffff_ffff_ffff,
                k <= 0xffff_ffff,
        ;
        assert(n * (0xffff_ffff_ffff_ffff * 0xffff_ffff) == (n - 1) * (0xffff_ffff_ffff_ffff
            * 0xffff_ffff) + 0xffff_ffff_ffff_ffff * 0xffff_ffff) by (nonlinear_arith);
    }
}

/// The L2 gas of a computation when every axis is priced on its own.
pub fn vm_l2_gas(computation: &ComputationResources, costs: &L2GasCosts) -> (r: u128)
    ensures
        r == spec_vm_l2_gas(*computation, *costs),
{
    let steps: u128 = computation.vm_resources.n_steps as u128 + computation.n_reverted_steps as u128;
    assert(steps * (costs.step_gas_cost as u128) <= 0x1_ffff_ffff_ffff_ffff * 0xffff_ffff)
        by (nonlinear_arith)
        requires
            steps <= 0x1_ffff_ffff_ffff_ffff,
            costs.step_gas_cost <= 0xffff_ffff,
    ;
    assert((computation.vm_resources.n_memory_holes as u128) * (costs.memory_hole_gas_cost as u128)
        <= 0xffff_ffff_ffff_ffff * 0xffff_ffff) by (nonlinear_arith)
        requires
            computation.vm_resources.n_memory_holes <= 0xffff_ffff_ffff_ffff,
            costs.memory_hole_gas_cost <= 0xffff_ffff,
    ;
    let mut total: u128 = steps * (costs.step_gas_cost as u128) + (
    computation.vm_resources.n_memory_holes as u128) * (costs.memory_hole_gas_cost as u128);
    let ghost base = total;
    let mut i: usize = 0;
    while i < N_BUILTINS
        invariant
            i <= N_BUILTINS,
            base <= 0x1_ffff_ffff_ffff_ffff * 0xffff_ffff + 0xffff_ffff_ffff_ffff * 0xffff_ffff,
            total == base + spec_sum_builtin_l2_gas(
                computation.vm_resources.builtin_instance_counter@,
                costs.builtins@,
                i as nat,
            ),
        decreases N_BUILTINS - i,
    {
        let c: u128 = computation.vm_resources.builtin_instance_counter[i] as u128;
        let k: u128 = costs.builtins[i] as u128;
        proof {
            lemma_sum_builtin_l2_gas_bound(
                computation.vm_resources.builtin_instance_counter@,
                costs.builtins@,
                i as nat,
            );
            assert(c * k <= 0xffff_ffff_ffff_ffff * 0xffff_ffff) by (nonlinear_arith)
                requires
                    c <= 0xffff_ffff_ffff_ffff,
                    k <= 0xffff_ffff,
            ;
            assert(i * (0xffff_ffff_ffff_ffff * 0xffff_ffff) <= 12 * (0xffff_ffff_ffff_ffff
                * 0xffff_ffff)) by (nonlinear_arith)
                requires
                    i <= 12,
            ;
        }
        total = total + c * k;
        i += 1;
    }
    total
}

/// What a transaction consumed: the state changes it has to publish and
/// the computation it ran.
#[derive(Clone, Copy, Debug, PartialEq, Eq)]
pub struct TransactionResources {
    pub state_changes_for_fee: StateChangesCount,
    pub computation: ComputationResources,
}

/// The block's cost model.
#[derive(Clone, Copy, Debug)]
pub struct GasCosts {
    pub vm_resource_fee_cost: VmResourceCosts,
    pub l2_gas_costs: L2GasCosts,
    pub da_gas_costs: DaGasCosts,
}

impl TransactionResources {
    /// The data-availability part of the gas vector, before the check that
    /// it fits. It depends on the state changes and on how they are
    /// published, never on the computation mode.
    pub open spec fn spec_da_amount(self, costs: GasCosts, use_kzg_da: bool) -> nat {
        spec_da_gas(self.state_changes_for_fee, use_kzg_da, costs.da_gas_costs)
    }

    /// The gas on each axis for these resources, before the check that they
    /// fit: `(l1_gas, l1_data_gas, l2_gas)`.
    pub open spec fn spec_gas_amounts(
        self,
        costs: GasCosts,
        use_kzg_da: bool,
        mode: GasVectorComputationMode,
    ) -> (nat, nat, nat) {
        let da = self.spec_da_amount(costs, use_kzg_da);
        let da_l1: nat = if use_kzg_da {
            0
        } else {
            da
        };
        let da_data: nat = if use_kzg_da {
            da
        } else {
            0
        };
        match mode {
            GasVectorComputationMode::NoL2Gas => (
                da_l1 + spec_vm_l1_gas(self.computation, costs.vm_resource_fee_cost),
                da_data,
                0,
            ),
            GasVectorComputationMode::All => (
                da_l1,
                da_data,
                spec_vm_l2_gas(self.computation, costs.l2_gas_costs),
            ),
        }
    }

    /// Whether the gas on every axis fits.
    pub open spec fn spec_gas_fits(
        self,
        costs: GasCosts,
        use_kzg_da: bool,
        mode: GasVectorComputationMode,
    ) -> bool {
        let (l1, data, l2) = self.spec_gas_amounts(costs, use_kzg_da, mode);
        l1 <= u64::MAX && data <= u64::MAX && l2 <= u64::MAX
    }

    /// The gas vector for these resources.
    pub open spec fn spec_gas_vector(
        self,
        costs: GasCosts,
        use_kzg_da: bool,
        mode: GasVectorComputationMode,
    ) -> GasVector {
        let (l1, data, l2) = self.spec_gas_amounts(costs, use_kzg_da, mode);
        GasVector { l1_gas: l1 as u64, l1_data_gas: data as u64, l2_gas: l2 as u64 }
    }

    /// Prices the resources in gas: the cost of publishing the state
    /// changes, plus the cost of the computation on the axis that the mode
    /// puts it on. `None` when an amount does not fit.
    pub fn to_gas_vector(
        &self,
        costs: &GasCosts,
        use_kzg_da: bool,
        mode: GasVectorComputationMode,
    ) -> (r: Option<GasVector>)
        ensures
            r is Some <==> self.spec_gas_fits(*costs, use_kzg_da, mode),
            r matches Some(gas) ==> gas == self.spec_gas_vector(*costs, use_kzg_da, mode),
    {
        let da = match get_da_gas_cost(&self.state_changes_for_fee, use_kzg_da, &costs.da_gas_costs) {
            Some(g) => g,
            None => { return None; },
        };
        match mode {
            GasVectorComputationMode::NoL2Gas => {
                let vm = vm_l1_gas(&self.computation, &costs.vm_resource_fee_cost);
                if vm > u64::MAX as u128 {
                    return None;
                }
                da.checked_add(&GasVector::from_l1_gas(vm as u64))
            },
            GasVectorComputationMode::All => {
                let vm = vm_l2_gas(&self.computation, &costs.l2_gas_costs);
                if vm > u64::MAX as u128 {
                    return None;
                }
                da.checked_add(&GasVector::from_l2_gas(vm as u64))
            },
        }
    }

    /// The data-availability part of the gas vector.
    pub fn da_gas(&self, costs: &GasCosts, use_kzg_da: bool) -> (r: Option<GasVector>)
        ensures
            r is Some <==> self.spec_da_amount(*costs, use_kzg_da) <= u64::MAX,
            r matches Some(gas) ==> gas == if use_kzg_da {
                GasVector {
                    l1_gas: 0,
                    l1_data_gas: self.spec_da_amount(*costs, use_kzg_da) as u64,
                    l2_gas: 0,
                }
            } else {
                GasVector {
                    l1_gas: self.spec_da_amount(*costs, use_kzg_da) as u64,
                    l1_data_gas: 0,
                    l2_gas: 0,
                }
            },
    {
        get_da_gas_cost(&self.state_changes_for_fee, use_kzg_da, &costs.da_gas_costs)
    }
}

} // verus!
