//! The budget of one phase while it runs: the steps that are left, how
//! deep the calls are nested, and the gas each call starts with.

use vstd::prelude::*;
use crate::budget::{max_steps, spec_max_steps, ExecutionMode};
use crate::context::TransactionContext;
use crate::resources::{BuiltinName, ExecutionResources};
use crate::transaction::{initial_gas, spec_initial_gas, PhaseOutcome};

verus! {

/// What a contract's execution is metered in.
#[derive(Clone, Copy, Debug, PartialEq, Eq, Hash, Structural)]
pub enum TrackedResource {
    /// The legacy interpreter: steps are counted, gas is not.
    CairoSteps,
    /// Gas is counted.
    SierraGas,
}

/// Why an entry point could not go on.
#[derive(Clone, Copy, Debug, PartialEq, Eq, Hash, Structural)]
pub enum EntryPointExecutionError {
    /// The calls are nested deeper than the block allows.
    RecursionDepthExceeded,
    /// The step budget is used up.
    NoRemainingSteps,
    /// The call's gas is used up.
    OutOfGas,
    /// No call is open.
    NoOpenCall,
}

impl EntryPointExecutionError {
    /// The message of the failure.
    pub open spec fn spec_message(self) -> Seq<char> {
        match self {
            EntryPointExecutionError::RecursionDepthExceeded => "recursion depth exceeded"@,
            EntryPointExecutionError::NoRemainingSteps => "RunResources has no remaining steps."@,
            EntryPointExecutionError::OutOfGas => "Out of gas"@,
            EntryPointExecutionError::NoOpenCall => "no call is open"@,
        }
    }

    /// The message of the failure.
    pub fn message(&self) -> (r: &'static str)
        ensures
            r@ == self.spec_message(),
    {
        match self {
            EntryPointExecutionError::RecursionDepthExceeded => "recursion depth exceeded",
            EntryPointExecutionError::NoRemainingSteps => "RunResources has no remaining steps.",
            EntryPointExecutionError::OutOfGas => "Out of gas",
            EntryPointExecutionError::NoOpenCall => "no call is open",
        }
    }
}

/// One call of a phase.
#[derive(Clone, Copy, Debug, PartialEq, Eq, Hash, Structural)]
pub struct CallRecord {
    /// The call that made this one, by its position; none for a first call.
    pub parent: Option<usize>,
    /// What the call is metered in: steps as soon as a call above it is
    /// metered in steps, else what its own contract is metered in.
    pub tracked_resource: TrackedResource,
    /// The gas the call started with.
    pub initial_gas: u64,
    /// The gas the call used, the calls it made included.
    pub gas_consumed: u64,
    /// The steps the call took itself.
    pub n_steps: u64,
    pub failed: bool,
}

/// What a new call is metered in.
pub open spec fn spec_tracked(parent: Option<CallRecord>, own: TrackedResource) -> TrackedResource {
    match parent {
        Some(p) => if p.tracked_resource == TrackedResource::CairoSteps {
            TrackedResource::CairoSteps
        } else {
            own
        },
        None => own,
    }
}

/// The gas a new call starts with. A call that is metered in steps gets the
/// block's default, whatever is left above it. A first call that is metered
/// in gas gets the phase's allotment. Any other call gets what its caller
/// has left at the time of the call.
pub open spec fn spec_call_initial_gas(
    parent: Option<CallRecord>,
    own: TrackedResource,
    allotment: u64,
    default_initial_gas_cost: u64,
) -> u64 {
    if spec_tracked(parent, own) == TrackedResource::CairoSteps {
        default_initial_gas_cost
    } else {
        match parent {
            Some(p) => (p.initial_gas - p.gas_consumed) as u64,
            None => allotment,
        }
    }
}

/// Whether the call at position `i` is laid out as calls nest: it stands
/// after the one that made it; below a call that is metered in steps it is
/// metered in steps and starts with the block's default gas; metered in
/// gas, it never starts with more than its caller started with, and never
/// uses more than it started with.
pub open spec fn call_well_formed(calls: Seq<CallRecord>, i: int, default_initial_gas_cost: u64) -> bool {
    let c = calls[i];
    &&& c.tracked_resource == TrackedResource::SierraGas ==> c.gas_consumed <= c.initial_gas
    &&& c.tracked_resource == TrackedResource::CairoSteps ==> c.initial_gas
        == default_initial_gas_cost
    &&& c.parent matches Some(p) ==> {
        &&& p < i
        &&& calls[p as int].tracked_resource == TrackedResource::CairoSteps ==> c.tracked_resource
            == TrackedResource::CairoSteps
        &&& c.tracked_resource == TrackedResource::SierraGas ==> c.initial_gas
            <= calls[p as int].initial_gas
    }
}

/// Whether every call is laid out as calls nest.
pub open spec fn calls_well_formed(calls: Seq<CallRecord>, default_initial_gas_cost: u64) -> bool {
    forall|i: int|
        0 <= i < calls.len() ==> #[trigger] call_well_formed(calls, i, default_initial_gas_cost)
}

/// Whether the open call at depth `s` fits the one above it: it was made
/// by it, and, metered in gas, started with no more than its caller has
/// left.
pub open spec fn open_call_fits(calls: Seq<CallRecord>, stack: Seq<usize>, s: int) -> bool {
    &&& stack[s] < calls.len()
    &&& calls[stack[s] as int].parent == if s == 0 {
        None::<usize>
    } else {
        Some(stack[s - 1])
    }
    &&& s >= 1 ==> stack[s - 1] < calls.len()
    &&& (s >= 1 && calls[stack[s] as int].tracked_resource == TrackedResource::SierraGas)
        ==> calls[stack[s] as int].initial_gas + calls[stack[s - 1] as int].gas_consumed
        <= calls[stack[s - 1] as int].initial_gas
}

/// Whether the call at position `i` took no more steps than were used.
pub open spec fn steps_accounted(calls: Seq<CallRecord>, i: int, used: int) -> bool {
    calls[i].n_steps <= used
}

/// An open call stands after the open calls around it: the positions of
/// the open calls increase with their depth.
pub proof fn lemma_stack_increases(
    calls: Seq<CallRecord>,
    stack: Seq<usize>,
    default_initial_gas_cost: u64,
    a: int,
    b: int,
)
    requires
        calls_well_formed(calls, default_initial_gas_cost),
        forall|s: int| 0 <= s < stack.len() ==> #[trigger] open_call_fits(calls, stack, s),
        0 <= a < b < stack.len(),
    ensures
        stack[a] < stack[b],
    decreases b - a,
{
    assert(open_call_fits(calls, stack, b));
    assert(call_well_formed(calls, stack[b] as int, default_initial_gas_cost));
    if a + 1 < b {
        lemma_stack_increases(calls, stack, default_initial_gas_cost, a, b - 1);
    }
}

/// The calls of a phase, in the order they were made.
#[derive(Clone, Debug, PartialEq, Eq)]
pub struct CallInfo {
    calls: Vec<CallRecord>,
    default_initial_gas_cost: u64,
}

impl CallInfo {
    /// The calls, in the order they were made.
    pub closed spec fn view(&self) -> Seq<CallRecord> {
        self.calls@
    }

    /// The gas that a call gets when it is metered in steps.
    pub closed spec fn spec_default_initial_gas_cost(&self) -> u64 {
        self.default_initial_gas_cost
    }

    /// Whether the calls are laid out as calls nest.
    pub open spec fn valid(&self) -> bool {
        calls_well_formed(self@, self.spec_default_initial_gas_cost())
    }

    /// No calls.
    pub fn empty() -> (r: CallInfo)
        ensures
            r.valid(),
            r@.len() == 0,
    {
        CallInfo { calls: Vec::new(), default_initial_gas_cost: 0 }
    }

    /// The number of calls.
    pub fn len(&self) -> (r: usize)
        ensures
            r == self@.len(),
    {
        self.calls.len()
    }

    /// The call at a position, if there is one.
    pub fn get(&self, i: usize) -> (r: Option<CallRecord>)
        ensures
            r == if i < self@.len() {
                Some(self@[i as int])
            } else {
                None
            },
    {
        if i < self.calls.len() {
            Some(self.calls[i])
        } else {
            None
        }
    }

    /// The positions of the calls that the call at `i` made, in order.
    pub fn inner_calls(&self, i: usize) -> (r: Vec<usize>)
        ensures
            forall|m: int|
                0 <= m < r@.len() ==> (#[trigger] r@[m]) < self@.len() && self@[r@[m] as int].parent
                    == Some(i),
            forall|j: int|
                0 <= j < self@.len() && (#[trigger] self@[j]).parent == Some(i) ==> r@.contains(
                    j as usize,
                ),
            forall|m: int, n: int| 0 <= m < n < r@.len() ==> r@[m] < r@[n],
    {
        let mut found: Vec<usize> = Vec::new();
        let mut j: usize = 0;
        while j < self.calls.len()
            invariant
                j <= self.calls@.len(),
                forall|m: int|
                    0 <= m < found@.len() ==> (#[trigger] found@[m]) < j && self.calls@[found@[m] as int].parent
                        == Some(i),
                forall|k: int|
                    0 <= k < j && (#[trigger] self.calls@[k]).parent == Some(i) ==> found@.contains(
                        k as usize,
                    ),
                forall|m: int, n: int| 0 <= m < n < found@.len() ==> found@[m] < found@[n],
            decreases self.calls@.len() - j,
        {
            let is_child = match self.calls[j].parent {
                Some(p) => p == i,
                None => false,
            };
            if is_child {
                let ghost before = found@;
                found.push(j);
                proof {
                    assert forall|k: int|
                        0 <= k < j + 1 && (#[trigger] self.calls@[k]).parent == Some(
                            i,
                        ) implies found@.contains(k as usize) by {
                        if k < j {
                            assert(before.contains(k as usize));
                            let m = before.index_of(k as usize);
                            assert(found@[m] == k as usize);
                        } else {
                            assert(found@[found@.len() - 1] == j);
                        }
                    }
                }
            }
            j += 1;
        }
        found
    }
}

/// The running budget of one phase.
#[derive(Debug)]
pub struct EntryPointExecutionContext {
    mode: ExecutionMode,
    max_recursion_depth: usize,
    default_initial_gas_cost: u64,
    gas_allotment: u64,
    initial_steps: usize,
    remaining_steps: usize,
    calls: Vec<CallRecord>,
    stack: Vec<usize>,
    n_memory_holes: u64,
    n_syscalls: u64,
    builtin_instance_counter: [u64; 12],
}

impl EntryPointExecutionContext {
    /// The phase the budget is for.
    pub closed spec fn spec_mode(&self) -> ExecutionMode {
        self.mode
    }

    /// The deepest that calls may nest.
    pub closed spec fn spec_max_recursion_depth(&self) -> usize {
        self.max_recursion_depth
    }

    pub closed spec fn spec_default_initial_gas_cost(&self) -> u64 {
        self.default_initial_gas_cost
    }

    /// The gas of a first call that is metered in gas.
    pub closed spec fn spec_gas_allotment(&self) -> u64 {
        self.gas_allotment
    }

    /// The steps the phase started with.
    pub closed spec fn spec_initial_steps(&self) -> usize {
        self.initial_steps
    }

    /// The steps that are left.
    pub closed spec fn spec_remaining_steps(&self) -> usize {
        self.remaining_steps
    }

    /// All calls made so far, in order.
    pub closed spec fn spec_calls(&self) -> Seq<CallRecord> {
        self.calls@
    }

    /// The positions of the calls that are open, outermost first.
    pub closed spec fn spec_stack(&self) -> Seq<usize> {
        self.stack@
    }

    /// The memory holes counted so far.
    pub closed spec fn spec_memory_holes(&self) -> u64 {
        self.n_memory_holes
    }

    /// The system calls counted so far.
    pub closed spec fn spec_syscalls(&self) -> u64 {
        self.n_syscalls
    }

    /// How often each circuit was used so far.
    pub closed spec fn spec_builtins(&self) -> Seq<u64> {
        self.builtin_instance_counter@
    }

    /// Whether `other` is this budget but for the counters of circuits and
    /// memory holes.
    pub open spec fn same_budget(&self, other: &EntryPointExecutionContext) -> bool {
        &&& self.spec_mode() == other.spec_mode()
        &&& self.spec_initial_steps() == other.spec_initial_steps()
        &&& self.spec_remaining_steps() == other.spec_remaining_steps()
        &&& self.spec_max_recursion_depth() == other.spec_max_recursion_depth()
        &&& self.spec_default_initial_gas_cost() == other.spec_default_initial_gas_cost()
        &&& self.spec_gas_allotment() == other.spec_gas_allotment()
        &&& self.spec_calls() == other.spec_calls()
        &&& self.spec_stack() == other.spec_stack()
    }

    /// The call that is running, if one is.
    pub open spec fn spec_current(&self) -> Option<CallRecord> {
        if self.spec_stack().len() > 0 {
            Some(self.spec_calls()[self.spec_stack().last() as int])
        } else {
            None
        }
    }

    /// The budget is sound: no more steps are left than there were; the
    /// open calls are nested no deeper than allowed, each made by the one
    /// before it, and none starts with more gas than its caller has left;
    /// no call took more steps than were used; and the calls are laid out
    /// as calls nest.
    pub open spec fn valid(&self) -> bool {
        let calls = self.spec_calls();
        let stack = self.spec_stack();
        &&& self.spec_remaining_steps() <= self.spec_initial_steps()
        &&& stack.len() <= self.spec_max_recursion_depth()
        &&& calls_well_formed(calls, self.spec_default_initial_gas_cost())
        &&& forall|i: int|
            0 <= i < calls.len() ==> #[trigger] steps_accounted(
                calls,
                i,
                self.spec_initial_steps() - self.spec_remaining_steps(),
            )
        &&& forall|s: int| 0 <= s < stack.len() ==> #[trigger] open_call_fits(calls, stack, s)
    }

    fn new(tx_context: &TransactionContext, mode: ExecutionMode, limit_steps_by_resources: bool) -> (r:
        EntryPointExecutionContext)
        ensures
            r.valid(),
            r.spec_mode() == mode,
            r.spec_initial_steps() == spec_max_steps(*tx_context, mode, limit_steps_by_resources),
            r.spec_remaining_steps() == r.spec_initial_steps(),
            r.spec_max_recursion_depth()
                == tx_context.block_context.versioned_constants.max_recursion_depth,
            r.spec_default_initial_gas_cost()
                == tx_context.block_context.versioned_constants.default_initial_gas_cost,
            r.spec_gas_allotment() == spec_initial_gas(*tx_context),
            r.spec_calls().len() == 0,
            r.spec_stack().len() == 0,
            r.spec_memory_holes() == 0,
            r.spec_syscalls() == 0,
            forall|i: int| 0 <= i < 12 ==> r.spec_builtins()[i] == 0,
    {
        let steps = max_steps(tx_context, mode, limit_steps_by_resources);
        EntryPointExecutionContext {
            mode,
            max_recursion_depth: tx_context.block_context.versioned_constants.max_recursion_depth,
            default_initial_gas_cost: tx_context.block_context.versioned_constants.default_initial_gas_cost,
            gas_allotment: initial_gas(tx_context),
            initial_steps: steps,
            remaining_steps: steps,
            calls: Vec::new(),
            stack: Vec::new(),
            n_memory_holes: 0,
            n_syscalls: 0,
            builtin_instance_counter: [0, 0, 0, 0, 0, 0, 0, 0, 0, 0, 0, 0],
        }
    }

    /// The budget of the execute phase of a transaction: the steps that
    /// the block allows, lowered to what the transaction pays for where
    /// steps are limited by resources.
    pub fn new_invoke(tx_context: &TransactionContext, limit_steps_by_resources: bool) -> (r:
        EntryPointExecutionContext)
        ensures
            r.valid(),
            r.spec_mode() == ExecutionMode::Execute,
            r.spec_initial_steps() == spec_max_steps(
                *tx_context,
                ExecutionMode::Execute,
                limit_steps_by_resources,
            ),
            r.spec_remaining_steps() == r.spec_initial_steps(),
            r.spec_max_recursion_depth()
                == tx_context.block_context.versioned_constants.max_recursion_depth,
            r.spec_default_initial_gas_cost()
                == tx_context.block_context.versioned_constants.default_initial_gas_cost,
            r.spec_gas_allotment() == spec_initial_gas(*tx_context),
            r.spec_calls().len() == 0,
            r.spec_stack().len() == 0,
            r.spec_memory_holes() == 0,
            r.spec_syscalls() == 0,
            forall|i: int| 0 <= i < 12 ==> r.spec_builtins()[i] == 0,
    {
        Self::new(tx_context, ExecutionMode::Execute, limit_steps_by_resources)
    }

    /// The budget of the validate phase of a transaction.
    pub fn new_validate(tx_context: &TransactionContext, limit_steps_by_resources: bool) -> (r:
        EntryPointExecutionContext)
        ensures
            r.valid(),
            r.spec_mode() == ExecutionMode::Validate,
            r.spec_initial_steps() == spec_max_steps(
                *tx_context,
                ExecutionMode::Validate,
                limit_steps_by_resources,
            ),
            r.spec_remaining_steps() == r.spec_initial_steps(),
            r.spec_max_recursion_depth()
                == tx_context.block_context.versioned_constants.max_recursion_depth,
            r.spec_default_initial_gas_cost()
                == tx_context.block_context.versioned_constants.default_initial_gas_cost,
            r.spec_gas_allotment() == spec_initial_gas(*tx_context),
            r.spec_calls().len() == 0,
            r.spec_stack().len() == 0,
            r.spec_memory_holes() == 0,
            r.spec_syscalls() == 0,
            forall|i: int| 0 <= i < 12 ==> r.spec_builtins()[i] == 0,
    {
        Self::new(tx_context, ExecutionMode::Validate, limit_steps_by_resources)
    }

    /// The same budget with another gas allotment, for a phase that starts
    /// with what an earlier phase left.
    pub fn with_gas_allotment(self, gas: u64) -> (r: EntryPointExecutionContext)
        requires
            self.valid(),
        ensures
            r.valid(),
            r.spec_memory_holes() == self.spec_memory_holes(),
            r.spec_syscalls() == self.spec_syscalls(),
            r.spec_builtins() == self.spec_builtins(),
            r.spec_mode() == self.spec_mode(),
            r.spec_initial_steps() == self.spec_initial_steps(),
            r.spec_remaining_steps() == self.spec_remaining_steps(),
            r.spec_max_recursion_depth() == self.spec_max_recursion_depth(),
            r.spec_default_initial_gas_cost() == self.spec_default_initial_gas_cost(),
            r.spec_gas_allotment() == gas,
            r.spec_calls() == self.spec_calls(),
            r.spec_stack() == self.spec_stack(),
    {
        EntryPointExecutionContext {
            mode: self.mode,
            max_recursion_depth: self.max_recursion_depth,
            default_initial_gas_cost: self.default_initial_gas_cost,
            gas_allotment: gas,
            initial_steps: self.initial_steps,
            remaining_steps: self.remaining_steps,
            calls: self.calls,
            stack: self.stack,
            n_memory_holes: self.n_memory_holes,
            n_syscalls: self.n_syscalls,
            builtin_instance_counter: self.builtin_instance_counter,
        }
    }

    /// The steps that are left.
    pub fn remaining_steps(&self) -> (r: usize)
        ensures
            r == self.spec_remaining_steps(),
    {
        self.remaining_steps
    }

    /// The steps that were used.
    pub fn n_steps_consumed(&self) -> (r: usize)
        requires
            self.valid(),
        ensures
            r == self.spec_initial_steps() - self.spec_remaining_steps(),
    {
        self.initial_steps - self.remaining_steps
    }

    /// How many calls are open.
    pub fn current_depth(&self) -> (r: usize)
        ensures
            r == self.spec_stack().len(),
    {
        self.stack.len()
    }

    /// Opens a call to a contract that is metered in `own`. Fails, and
    /// changes nothing, when the calls are nested as deep as the block
    /// allows already, however many steps are left.
    pub fn enter_call(&mut self, own: TrackedResource) -> (r: Result<usize, EntryPointExecutionError>)
        requires
            old(self).valid(),
        ensures
            final(self).valid(),
            final(self).spec_memory_holes() == old(self).spec_memory_holes(),
            final(self).spec_syscalls() == old(self).spec_syscalls(),
            final(self).spec_builtins() == old(self).spec_builtins(),
            final(self).spec_mode() == old(self).spec_mode(),
            final(self).spec_initial_steps() == old(self).spec_initial_steps(),
            final(self).spec_remaining_steps() == old(self).spec_remaining_steps(),
            final(self).spec_max_recursion_depth() == old(self).spec_max_recursion_depth(),
            final(self).spec_default_initial_gas_cost() == old(self).spec_default_initial_gas_cost(),
            final(self).spec_gas_allotment() == old(self).spec_gas_allotment(),
            if old(self).spec_stack().len() >= old(self).spec_max_recursion_depth() {
                &&& r == Err::<usize, EntryPointExecutionError>(
                    EntryPointExecutionError::RecursionDepthExceeded,
                )
                &&& final(self).spec_calls() == old(self).spec_calls()
                &&& final(self).spec_stack() == old(self).spec_stack()
            } else {
                &&& r == Ok::<usize, EntryPointExecutionError>(old(self).spec_calls().len() as usize)
                &&& final(self).spec_stack() == old(self).spec_stack().push(
                    old(self).spec_calls().len() as usize,
                )
                &&& final(self).spec_calls() == old(self).spec_calls().push(
                    CallRecord {
                        parent: if old(self).spec_stack().len() > 0 {
                            Some(old(self).spec_stack().last())
                        } else {
                            None
                        },
                        tracked_resource: spec_tracked(old(self).spec_current(), own),
                        initial_gas: spec_call_initial_gas(
                            old(self).spec_current(),
                            own,
                            old(self).spec_gas_allotment(),
                            old(self).spec_default_initial_gas_cost(),
                        ),
                        gas_consumed: 0,
                        n_steps: 0,
                        failed: false,
                    },
                )
            },
    {
        if self.stack.len() >= self.max_recursion_depth {
            return Err(EntryPointExecutionError::RecursionDepthExceeded);
        }
        let ghost old_calls = self.calls@;
        let ghost old_stack = self.stack@;
        let ghost default = self.default_initial_gas_cost;
        let ghost used = self.initial_steps - self.remaining_steps;
        let depth = self.stack.len();
        proof {
            if depth > 0 {
                assert(open_call_fits(old_calls, old_stack, depth - 1));
                assert(call_well_formed(old_calls, old_stack[depth - 1] as int, default));
            }
        }
        let parent_slot: Option<usize> = if depth > 0 {
            Some(self.stack[depth - 1])
        } else {
            None
        };
        let parent: Option<CallRecord> = match parent_slot {
            Some(p) => Some(self.calls[p]),
            None => None,
        };
        let metered = match parent {
            Some(p) => match p.tracked_resource {
                TrackedResource::CairoSteps => TrackedResource::CairoSteps,
                TrackedResource::SierraGas => own,
            },
            None => own,
        };
        let gas = match metered {
            TrackedResource::CairoSteps => self.default_initial_gas_cost,
            TrackedResource::SierraGas => match parent {
                Some(p) => p.initial_gas - p.gas_consumed,
                None => self.gas_allotment,
            },
        };
        let id = self.calls.len();
        let record = CallRecord {
            parent: parent_slot,
            tracked_resource: metered,
            initial_gas: gas,
            gas_consumed: 0,
            n_steps: 0,
            failed: false,
        };
        self.calls.push(record);
        self.stack.push(id);
        proof {
            let calls = self.calls@;
            let stack = self.stack@;
            assert forall|i: int| 0 <= i < calls.len() implies #[trigger] call_well_formed(
                calls,
                i,
                default,
            ) by {
                if i < old_calls.len() {
                    assert(call_well_formed(old_calls, i, default));
                    assert(calls[i] == old_calls[i]);
                    if let Some(p) = old_calls[i].parent {
                        assert(calls[p as int] == old_calls[p as int]);
                    }
                } else {
                    if depth > 0 {
                        assert(calls[old_stack[depth - 1] as int] == old_calls[old_stack[depth
                            - 1] as int]);
                    }
                }
            }
            assert forall|i: int| 0 <= i < calls.len() implies #[trigger] steps_accounted(
                calls,
                i,
                used,
            ) by {
                if i < old_calls.len() {
                    assert(steps_accounted(old_calls, i, used));
                    assert(calls[i] == old_calls[i]);
                }
            }
            assert forall|s: int| 0 <= s < stack.len() implies #[trigger] open_call_fits(
                calls,
                stack,
                s,
            ) by {
                if s < old_stack.len() {
                    assert(open_call_fits(old_calls, old_stack, s));
                    assert(stack[s] == old_stack[s]);
                    assert(calls[stack[s] as int] == old_calls[old_stack[s] as int]);
                    if s > 0 {
                        assert(stack[s - 1] == old_stack[s - 1]);
                        assert(calls[stack[s - 1] as int] == old_calls[old_stack[s - 1] as int]);
                    }
                } else {
                    if s > 0 {
                        assert(stack[s - 1] == old_stack[s - 1]);
                        assert(calls[stack[s - 1] as int] == old_calls[old_stack[s - 1] as int]);
                    }
                }
            }
        }
        Ok(id)
    }

    /// Takes `n` steps off the budget and counts them for the running call.
    /// When fewer are left, what is left is used up and counted, and the
    /// call fails: the budget never goes on past its end.
    pub fn consume_steps(&mut self, n: usize) -> (r: Result<(), EntryPointExecutionError>)
        requires
            old(self).valid(),
        ensures
            final(self).valid(),
            final(self).spec_memory_holes() == old(self).spec_memory_holes(),
            final(self).spec_syscalls() == old(self).spec_syscalls(),
            final(self).spec_builtins() == old(self).spec_builtins(),
            final(self).spec_mode() == old(self).spec_mode(),
            final(self).spec_initial_steps() == old(self).spec_initial_steps(),
            final(self).spec_max_recursion_depth() == old(self).spec_max_recursion_depth(),
            final(self).spec_default_initial_gas_cost() == old(self).spec_default_initial_gas_cost(),
            final(self).spec_gas_allotment() == old(self).spec_gas_allotment(),
            final(self).spec_stack() == old(self).spec_stack(),
            if old(self).spec_stack().len() == 0 {
                &&& r == Err::<(), EntryPointExecutionError>(EntryPointExecutionError::NoOpenCall)
                &&& final(self).spec_remaining_steps() == old(self).spec_remaining_steps()
                &&& final(self).spec_calls() == old(self).spec_calls()
            } else {
                let used = if n <= old(self).spec_remaining_steps() {
                    n
                } else {
                    old(self).spec_remaining_steps()
                };
                let running = old(self).spec_stack().last() as int;
                &&& r is Ok <==> n <= old(self).spec_remaining_steps()
                &&& r is Err ==> r == Err::<(), EntryPointExecutionError>(
                    EntryPointExecutionError::NoRemainingSteps,
                )
                &&& final(self).spec_remaining_steps() == old(self).spec_remaining_steps() - used
                &&& final(self).spec_calls() == old(self).spec_calls().update(
                    running,
                    CallRecord {
                        n_steps: (old(self).spec_calls()[running].n_steps + used) as u64,
                        ..old(self).spec_calls()[running]
                    },
                )
            },
    {
        let depth = self.stack.len();
        if depth == 0 {
            return Err(EntryPointExecutionError::NoOpenCall);
        }
        let ghost old_calls = self.calls@;
        let ghost stack = self.stack@;
        let ghost default = self.default_initial_gas_cost;
        let ghost used_before = self.initial_steps - self.remaining_steps;
        proof {
            assert(open_call_fits(old_calls, stack, depth - 1));
            assert(steps_accounted(old_calls, stack[depth - 1] as int, used_before));
        }
        let running = self.stack[depth - 1];
        let enough = n <= self.remaining_steps;
        let used: usize = if enough {
            n
        } else {
            self.remaining_steps
        };
        let record = self.calls[running];
        let updated = CallRecord {
            parent: record.parent,
            tracked_resource: record.tracked_resource,
            initial_gas: record.initial_gas,
            gas_consumed: record.gas_consumed,
            n_steps: record.n_steps + used as u64,
            failed: record.failed,
        };
        self.calls.set(running, updated);
        self.remaining_steps = self.remaining_steps - used;
        proof {
            let calls = self.calls@;
            assert forall|i: int| 0 <= i < calls.len() implies #[trigger] call_well_formed(
                calls,
                i,
                default,
            ) by {
                assert(call_well_formed(old_calls, i, default));
            }
            assert forall|i: int| 0 <= i < calls.len() implies #[trigger] steps_accounted(
                calls,
                i,
                used_before + used,
            ) by {
                assert(steps_accounted(old_calls, i, used_before));
            }
            assert forall|s: int| 0 <= s < stack.len() implies #[trigger] open_call_fits(
                calls,
                stack,
                s,
            ) by {
                assert(open_call_fits(old_calls, stack, s));
            }
            assert(calls_well_formed(calls, default));
            assert(self.initial_steps - self.remaining_steps == used_before + used);
            assert forall|i: int| 0 <= i < calls.len() implies #[trigger] steps_accounted(
                calls,
                i,
                self.spec_initial_steps() - self.spec_remaining_steps(),
            ) by {
                assert(steps_accounted(calls, i, used_before + used));
            }
            assert(self.spec_stack() == stack);
            assert(self.spec_calls() == calls);
            assert(self.valid());
            assert(running == stack.last());
            assert(calls == old_calls.update(running as int, updated));
        }
        if enough {
            Ok(())
        } else {
            Err(EntryPointExecutionError::NoRemainingSteps)
        }
    }

    /// Takes `n` units of gas off the running call. A call that is metered
    /// in steps uses no gas. When the call has less gas left, what is left
    /// is used up and the call fails.
    pub fn consume_gas(&mut self, n: u64) -> (r: Result<(), EntryPointExecutionError>)
        requires
            old(self).valid(),
        ensures
            final(self).valid(),
            final(self).spec_memory_holes() == old(self).spec_memory_holes(),
            final(self).spec_syscalls() == old(self).spec_syscalls(),
            final(self).spec_builtins() == old(self).spec_builtins(),
            final(self).spec_mode() == old(self).spec_mode(),
            final(self).spec_initial_steps() == old(self).spec_initial_steps(),
            final(self).spec_remaining_steps() == old(self).spec_remaining_steps(),
            final(self).spec_max_recursion_depth() == old(self).spec_max_recursion_depth(),
            final(self).spec_default_initial_gas_cost() == old(self).spec_default_initial_gas_cost(),
            final(self).spec_gas_allotment() == old(self).spec_gas_allotment(),
            final(self).spec_stack() == old(self).spec_stack(),
            match old(self).spec_current() {
                None => {
                    &&& r == Err::<(), EntryPointExecutionError>(EntryPointExecutionError::NoOpenCall)
                    &&& final(self).spec_calls() == old(self).spec_calls()
                },
                Some(call) => if call.tracked_resource == TrackedResource::CairoSteps {
                    &&& r is Ok
                    &&& final(self).spec_calls() == old(self).spec_calls()
                } else {
                    let fits = call.gas_consumed + n <= call.initial_gas;
                    &&& r is Ok <==> fits
                    &&& r is Err ==> r == Err::<(), EntryPointExecutionError>(
                        EntryPointExecutionError::OutOfGas,
                    )
                    &&& final(self).spec_calls() == old(self).spec_calls().update(
                        old(self).spec_stack().last() as int,
                        CallRecord {
                            gas_consumed: if fits {
                                (call.gas_consumed + n) as u64
                            } else {
                                call.initial_gas
                            },
                            ..call
                        },
                    )
                },
            },
    {
        let depth = self.stack.len();
        if depth == 0 {
            return Err(EntryPointExecutionError::NoOpenCall);
        }
        let ghost old_calls = self.calls@;
        let ghost stack = self.stack@;
        let ghost default = self.default_initial_gas_cost;
        let ghost used = self.initial_steps - self.remaining_steps;
        proof {
            assert(open_call_fits(old_calls, stack, depth - 1));
            assert(call_well_formed(old_calls, stack[depth - 1] as int, default));
        }
        let running = self.stack[depth - 1];
        let record = self.calls[running];
        match record.tracked_resource {
            TrackedResource::CairoSteps => {
                return Ok(());
            },
            TrackedResource::SierraGas => {},
        }
        let left: u64 = record.initial_gas - record.gas_consumed;
        let fits = n <= left;
        let updated = CallRecord {
            parent: record.parent,
            tracked_resource: record.tracked_resource,
            initial_gas: record.initial_gas,
            gas_consumed: if fits {
                record.gas_consumed + n
            } else {
                record.initial_gas
            },
            n_steps: record.n_steps,
            failed: record.failed,
        };
        self.calls.set(running, updated);
        proof {
            let calls = self.calls@;
            assert forall|i: int| 0 <= i < calls.len() implies #[trigger] call_well_formed(
                calls,
                i,
                default,
            ) by {
                assert(call_well_formed(old_calls, i, default));
            }
            assert forall|i: int| 0 <= i < calls.len() implies #[trigger] steps_accounted(
                calls,
                i,
                self.spec_initial_steps() - self.spec_remaining_steps(),
            ) by {
                assert(steps_accounted(old_calls, i, used));
            }
            assert forall|s: int| 0 <= s < stack.len() implies #[trigger] open_call_fits(
                calls,
                stack,
                s,
            ) by {
                assert(open_call_fits(old_calls, stack, s));
                if s + 1 < stack.len() {
                    // Only the innermost open call uses gas: the call above
                    // an open call is not the running one.
                    assert(open_call_fits(old_calls, stack, s + 1));
                    assert(call_well_formed(old_calls, stack[s + 1] as int, default));
                    assert(open_call_fits(old_calls, stack, depth - 1));
                    lemma_stack_increases(old_calls, stack, default, s, depth - 1);
                }
                if s >= 1 {
                    assert(call_well_formed(old_calls, stack[s] as int, default));
                    lemma_stack_increases(old_calls, stack, default, s - 1, depth - 1);
                }
            }
            assert(self.spec_stack() == stack);
            assert(self.spec_calls() == calls);
            assert(self.valid());
            assert(calls == old_calls.update(running as int, updated));
        }
        if fits {
            Ok(())
        } else {
            Err(EntryPointExecutionError::OutOfGas)
        }
    }

    /// Closes the running call and hands the gas it used on to its caller.
    pub fn exit_call(&mut self, failed: bool) -> (r: Result<(), EntryPointExecutionError>)
        requires
            old(self).valid(),
        ensures
            final(self).valid(),
            final(self).spec_memory_holes() == old(self).spec_memory_holes(),
            final(self).spec_syscalls() == old(self).spec_syscalls(),
            final(self).spec_builtins() == old(self).spec_builtins(),
            final(self).spec_mode() == old(self).spec_mode(),
            final(self).spec_initial_steps() == old(self).spec_initial_steps(),
            final(self).spec_remaining_steps() == old(self).spec_remaining_steps(),
            final(self).spec_max_recursion_depth() == old(self).spec_max_recursion_depth(),
            final(self).spec_default_initial_gas_cost() == old(self).spec_default_initial_gas_cost(),
            final(self).spec_gas_allotment() == old(self).spec_gas_allotment(),
            match old(self).spec_current() {
                None => {
                    &&& r == Err::<(), EntryPointExecutionError>(EntryPointExecutionError::NoOpenCall)
                    &&& final(self).spec_calls() == old(self).spec_calls()
                    &&& final(self).spec_stack() == old(self).spec_stack()
                },
                Some(call) => {
                    let closed = old(self).spec_calls().update(
                        old(self).spec_stack().last() as int,
                        CallRecord { failed, ..call },
                    );
                    &&& r is Ok
                    &&& final(self).spec_stack() == old(self).spec_stack().drop_last()
                    &&& final(self).spec_calls() == match call.parent {
                        Some(p) => if call.tracked_resource == TrackedResource::SierraGas {
                            closed.update(
                                p as int,
                                CallRecord {
                                    gas_consumed: (closed[p as int].gas_consumed
                                        + call.gas_consumed) as u64,
                                    ..closed[p as int]
                                },
                            )
                        } else {
                            closed
                        },
                        None => closed,
                    }
                },
            },
    {
        let depth = self.stack.len();
        if depth == 0 {
            return Err(EntryPointExecutionError::NoOpenCall);
        }
        let ghost old_calls = self.calls@;
        let ghost old_stack = self.stack@;
        let ghost default = self.default_initial_gas_cost;
        let ghost used = self.initial_steps - self.remaining_steps;
        proof {
            assert(open_call_fits(old_calls, old_stack, depth - 1));
            assert(call_well_formed(old_calls, old_stack[depth - 1] as int, default));
        }
        let running = self.stack[depth - 1];
        let record = self.calls[running];
        let closed = CallRecord {
            parent: record.parent,
            tracked_resource: record.tracked_resource,
            initial_gas: record.initial_gas,
            gas_consumed: record.gas_consumed,
            n_steps: record.n_steps,
            failed,
        };
        self.calls.set(running, closed);
        let ghost mid_calls = self.calls@;
        let hands_on = match record.tracked_resource {
            TrackedResource::SierraGas => true,
            TrackedResource::CairoSteps => false,
        };
        match record.parent {
            Some(p) => {
                if hands_on {
                    proof {
                        assert(p == old_stack[depth - 2]);
                        assert(call_well_formed(old_calls, p as int, default));
                    }
                    let caller = self.calls[p];
                    let updated = CallRecord {
                        parent: caller.parent,
                        tracked_resource: caller.tracked_resource,
                        initial_gas: caller.initial_gas,
                        gas_consumed: caller.gas_consumed + record.gas_consumed,
                        n_steps: caller.n_steps,
                        failed: caller.failed,
                    };
                    self.calls.set(p, updated);
                }
            },
            None => {},
        }
        let _ = self.stack.pop();
        proof {
            let calls = self.calls@;
            let stack = self.stack@;
            assert(stack =~= old_stack.drop_last());
            assert forall|i: int| 0 <= i < calls.len() implies #[trigger] call_well_formed(
                calls,
                i,
                default,
            ) by {
                assert(call_well_formed(old_calls, i, default));
            }
            assert forall|i: int| 0 <= i < calls.len() implies #[trigger] steps_accounted(
                calls,
                i,
                self.spec_initial_steps() - self.spec_remaining_steps(),
            ) by {
                assert(steps_accounted(old_calls, i, used));
            }
            assert forall|s: int| 0 <= s < stack.len() implies #[trigger] open_call_fits(
                calls,
                stack,
                s,
            ) by {
                assert(open_call_fits(old_calls, old_stack, s));
                assert(stack[s] == old_stack[s]);
                // The caller of an open call is not the call that closes.
                assert(open_call_fits(old_calls, old_stack, s + 1));
                lemma_stack_increases(old_calls, old_stack, default, s, depth - 1);
                if s >= 1 {
                    lemma_stack_increases(old_calls, old_stack, default, s - 1, depth - 1);
                    if s + 1 < depth - 1 {
                        lemma_stack_increases(old_calls, old_stack, default, s - 1, depth - 2);
                    }
                }
                if s + 1 < depth - 1 {
                    lemma_stack_increases(old_calls, old_stack, default, s, depth - 2);
                }
            }
            assert(self.spec_stack() == stack);
            assert(self.spec_calls() == calls);
            assert(self.valid());
        }
        Ok(())
    }

    /// Counts `n` more uses of a circuit; the count stops at the largest
    /// number.
    pub fn count_builtin(&mut self, name: BuiltinName, n: u64)
        requires
            old(self).valid(),
        ensures
            final(self).valid(),
            final(self).same_budget(old(self)),
            final(self).spec_memory_holes() == old(self).spec_memory_holes(),
            final(self).spec_syscalls() == old(self).spec_syscalls(),
            final(self).spec_builtins() == old(self).spec_builtins().update(
                name.spec_index(),
                if old(self).spec_builtins()[name.spec_index()] + n <= u64::MAX {
                    (old(self).spec_builtins()[name.spec_index()] + n) as u64
                } else {
                    u64::MAX
                },
            ),
    {
        let i = name.index();
        let sum = match self.builtin_instance_counter[i].checked_add(n) {
            Some(x) => x,
            None => u64::MAX,
        };
        self.builtin_instance_counter[i] = sum;
    }

    /// Counts `n` more system calls; the count stops at the largest number.
    pub fn count_syscalls(&mut self, n: u64)
        requires
            old(self).valid(),
        ensures
            final(self).valid(),
            final(self).same_budget(old(self)),
            final(self).spec_builtins() == old(self).spec_builtins(),
            final(self).spec_memory_holes() == old(self).spec_memory_holes(),
            final(self).spec_syscalls() == if old(self).spec_syscalls() + n <= u64::MAX {
                (old(self).spec_syscalls() + n) as u64
            } else {
                u64::MAX
            },
    {
        self.n_syscalls = match self.n_syscalls.checked_add(n) {
            Some(x) => x,
            None => u64::MAX,
        };
    }

    /// Counts `n` more memory holes; the count stops at the largest number.
    pub fn count_memory_holes(&mut self, n: u64)
        requires
            old(self).valid(),
        ensures
            final(self).valid(),
            final(self).same_budget(old(self)),
            final(self).spec_syscalls() == old(self).spec_syscalls(),
            final(self).spec_builtins() == old(self).spec_builtins(),
            final(self).spec_memory_holes() == if old(self).spec_memory_holes() + n <= u64::MAX {
                (old(self).spec_memory_holes() + n) as u64
            } else {
                u64::MAX
            },
    {
        self.n_memory_holes = match self.n_memory_holes.checked_add(n) {
            Some(x) => x,
            None => u64::MAX,
        };
    }

    /// Closes the phase: its calls, and what it consumed. The steps are
    /// those taken off the budget; the gas is what the first call used.
    pub fn into_outcome(self, failure: Option<String>) -> (r: PhaseOutcome)
        requires
            self.valid(),
        ensures
            r.call_info.valid(),
            r.call_info@ == self.spec_calls(),
            r.call_info.spec_default_initial_gas_cost() == self.spec_default_initial_gas_cost(),
            r.failure == failure,
            r.resources.n_steps == self.spec_initial_steps() - self.spec_remaining_steps(),
            r.resources.n_memory_holes == self.spec_memory_holes(),
            r.n_syscalls == self.spec_syscalls(),
            r.resources.builtin_instance_counter@ == self.spec_builtins(),
            r.gas_consumed == if self.spec_calls().len() > 0 {
                self.spec_calls()[0].gas_consumed
            } else {
                0
            },
    {
        let gas_consumed = if self.calls.len() > 0 {
            self.calls[0].gas_consumed
        } else {
            0
        };
        let resources = ExecutionResources {
            n_steps: (self.initial_steps - self.remaining_steps) as u64,
            n_memory_holes: self.n_memory_holes,
            builtin_instance_counter: self.builtin_instance_counter,
        };
        PhaseOutcome {
            resources,
            n_syscalls: self.n_syscalls,
            gas_consumed,
            failure,
            call_info: CallInfo {
                calls: self.calls,
                default_initial_gas_cost: self.default_initial_gas_cost,
            },
        }
    }

    /// Hands the calls over.
    pub fn finish(self) -> (r: CallInfo)
        requires
            self.valid(),
        ensures
            r.valid(),
            r@ == self.spec_calls(),
            r.spec_default_initial_gas_cost() == self.spec_default_initial_gas_cost(),
    {
        CallInfo { calls: self.calls, default_initial_gas_cost: self.default_initial_gas_cost }
    }
}

} // verus!
