//! What holds of a transaction across its phases.

use vstd::prelude::*;
use vstd::arithmetic::div_mod::lemma_fundamental_div_mod;
use crate::context::TransactionContext;
use crate::fee_transfer::{
    high_cell,
    lemma_debit_value,
    low_cell,
    spec_balance,
    spec_deferred,
    stack_after_balance_read,
};
use crate::fee_transfer_laws::lemma_self_transfer_keeps_balance;
use crate::felt::{ContractAddress, Felt};
use crate::fee_checks::{spec_check_actual_fee_in_bounds, spec_check_actual_cost_within_bounds};
use crate::fields::{TransactionInfo, TransactionVersion, ValidResourceBounds};
use crate::gas::{ceil_div, Fee, GasVector, GasVectorComputationMode};
use crate::receipt::{
    lemma_charge_only_reads,
    spec_post_execution_report,
    spec_receipt,
    stack_after_charge,
};
use crate::resources::{ComputationResources, ExecutionResources, StateChangesCount};
use crate::state::{reads_consistent, visible, LayerHandle, LayerView};
use crate::state_laws::{
    ledger,
    lemma_commit_keeps_ledger,
    lemma_get_keeps_ledger,
    lemma_push_empty_keeps_ledger,
    lemma_set_updates_ledger,
    merged_stack,
    stack_after_get,
    stack_after_set,
};
use crate::state_map::CellKey;
use crate::transaction::{
    admitted,
    ran_above,
    rejected,
    spec_admission,
    spec_cells_after_admission,
    spec_execute_verdict,
    spec_fee_step,
    spec_price_too_low,
    spec_kept_computation,
    spec_reverted_computation,
    stack_after_admission,
    stack_after_execute,
    stack_after_fee_step,
    stack_after_validation,
    stack_at_execute,
    stack_with_own_layer,
    ExecuteVerdict,
    ExecutionFlags,
    PhaseOutcome,
    TransactionKind,
};

verus! {

/// A transaction whose validate phase fails leaves no trace: whatever the
/// phase did to the transaction's layers, the state ends with the very
/// layers it had before the transaction was admitted, so that every cell,
/// nonce, balance and class hash among them, shows what it showed before.
pub proof fn lemma_failed_validation_leaves_no_trace(
    base: spec_fn(CellKey) -> Felt,
    outer: LayerHandle,
    before: Seq<LayerView>,
    after_admission: Seq<LayerView>,
    after_validation_ran: Seq<LayerView>,
    after_rejection: Seq<LayerView>,
)
    requires
        admitted(before, after_admission, outer),
        ran_above(outer, after_admission, after_validation_ran),
        rejected(outer, after_validation_ran, after_rejection),
    ensures
        after_rejection == before,
        ledger(base, after_rejection) == ledger(base, before),
{
}

/// What a phase that runs outside leaves where it keeps to its own layer:
/// as many layers as before, and the layers below the top one untouched.
pub open spec fn kept_to_top_layer(before: Seq<LayerView>, after: Seq<LayerView>) -> bool {
    &&& after.len() == before.len()
    &&& after.drop_last() == before.drop_last()
}

/// The stack that the execute phase starts from: the one that the step
/// after the validate phase leaves, or, where validation is skipped, the
/// one that admission leaves.
pub open spec fn stack_before_execute(
    base: spec_fn(CellKey) -> Felt,
    before: Seq<LayerView>,
    tx_context: TransactionContext,
    kind: TransactionKind,
    flags: ExecutionFlags,
    validate_ran: Seq<LayerView>,
) -> Seq<LayerView> {
    if flags.validate {
        stack_after_validation(validate_ran, kind)
    } else {
        stack_after_admission(base, before, tx_context, kind, flags)
    }
}

/// The cells as they stand when the execute phase is opened, its own
/// layer left aside: what the validate phase left, or, where validation is
/// skipped, what admission left.
pub open spec fn cells_before_execute(
    base: spec_fn(CellKey) -> Felt,
    before: Seq<LayerView>,
    tx_context: TransactionContext,
    flags: ExecutionFlags,
    validate_ran: Seq<LayerView>,
) -> Map<CellKey, Felt> {
    if flags.validate {
        ledger(base, validate_ran)
    } else {
        spec_cells_after_admission(ledger(base, before), tx_context)
    }
}

/// The stack that a rolled-back execute phase leaves: the one without the
/// phase's layer, with the reads of the charge recorded.
pub open spec fn stack_rolled_back(
    base: spec_fn(CellKey) -> Felt,
    execute_ran: Seq<LayerView>,
    tx_context: TransactionContext,
    flags: ExecutionFlags,
    validate_resources: ExecutionResources,
    outcome: PhaseOutcome,
) -> Seq<LayerView> {
    stack_after_charge(
        base,
        execute_ran.drop_last(),
        tx_context,
        spec_reverted_computation(validate_resources, outcome, tx_context),
        flags.charge_fee,
    )
}

/// Admission leaves the transaction's own layer right above the layers
/// that were there; seen through it, the cells show the raised nonce and
/// nothing else that is new.
pub proof fn lemma_admission_raises_nonce_only(
    base: spec_fn(CellKey) -> Felt,
    before: Seq<LayerView>,
    tx_context: TransactionContext,
    kind: TransactionKind,
    flags: ExecutionFlags,
)
    ensures
        stack_after_admission(base, before, tx_context, kind, flags).len() == before.len() + 2,
        stack_after_admission(base, before, tx_context, kind, flags).drop_last()
            == stack_with_own_layer(base, before, tx_context, kind, flags),
        stack_with_own_layer(base, before, tx_context, kind, flags).drop_last() == before,
        ledger(base, stack_with_own_layer(base, before, tx_context, kind, flags))
            == spec_cells_after_admission(ledger(base, before), tx_context),
{
    let fields = tx_context.tx_info.spec_common_fields();
    let nonce = CellKey::Nonce(fields.sender_address);
    let token = tx_context.spec_fee_token_address();
    let keys = tx_context.sender_balance_keys;
    let opened = before.push(LayerView::empty());
    lemma_push_empty_keeps_ledger(base, before);
    assert(opened.drop_last() =~= before);
    let raised = if fields.version != TransactionVersion::Zero {
        stack_after_set(
            stack_after_get(base, opened, nonce),
            nonce,
            visible(base, before, nonce).spec_checked_next()->Some_0,
        )
    } else {
        opened
    };
    if fields.version != TransactionVersion::Zero {
        lemma_get_keeps_ledger(base, opened, nonce);
        lemma_set_updates_ledger(
            base,
            stack_after_get(base, opened, nonce),
            nonce,
            visible(base, before, nonce).spec_checked_next()->Some_0,
        );
        assert(stack_after_get(base, opened, nonce).drop_last() =~= before);
    }
    assert(raised.drop_last() =~= before);
    assert(ledger(base, raised) == spec_cells_after_admission(ledger(base, before), tx_context));
    let looked_up = if kind matches TransactionKind::Declare { class_hash, .. }
        && fields.version.spec_number() >= 2 {
        stack_after_get(base, raised, CellKey::Declared(kind->Declare_class_hash))
    } else {
        raised
    };
    if looked_up != raised {
        lemma_get_keeps_ledger(base, raised, CellKey::Declared(kind->Declare_class_hash));
    }
    assert(looked_up.drop_last() =~= before);
    let own = stack_with_own_layer(base, before, tx_context, kind, flags);
    if own != looked_up {
        let low = stack_after_get(base, looked_up, low_cell(token, keys));
        lemma_get_keeps_ledger(base, looked_up, low_cell(token, keys));
        lemma_get_keeps_ledger(base, low, high_cell(token, keys));
        assert(low.drop_last() =~= before);
    }
    assert(own.drop_last() =~= before);
    let phase = own.push(LayerView::empty());
    assert(phase.drop_last() =~= own);
    assert(stack_at_execute(phase, kind).drop_last() =~= own);
}

/// The fee step leaves every nonce as it was and takes the fee off the
/// sender's balance. Where the sender is the sequencer, the fee comes back
/// to the same balance.
pub proof fn lemma_fee_step_debits_sender(
    cells: Map<CellKey, Felt>,
    tx_context: TransactionContext,
    flags: ExecutionFlags,
    fee: Fee,
)
    requires
        tx_context.sender_balance_keys.valid(),
        tx_context.block_context.block_info.sequencer_balance_keys.valid(),
        flags.charge_fee,
        fee > 0,
        spec_fee_step(cells, tx_context, flags, fee) is Ok,
    ensures
        ({
            let after = spec_fee_step(cells, tx_context, flags, fee)->Ok_0;
            let token = tx_context.spec_fee_token_address();
            let keys = tx_context.sender_balance_keys;
            &&& forall|address: ContractAddress| #[trigger]
                after[CellKey::Nonce(address)] == cells[CellKey::Nonce(address)]
            &&& spec_balance(cells, token, keys) matches Some(balance) && spec_balance(
                after,
                token,
                keys,
            ) matches Some(rest) && if tx_context.spec_is_sequencer_the_sender() {
                rest == balance
            } else {
                rest.value() == balance.value() - fee
            }
        }),
{
    let token = tx_context.spec_fee_token_address();
    let keys = tx_context.sender_balance_keys;
    let balance = spec_balance(cells, token, keys)->Some_0;
    lemma_debit_value(balance, fee);
    if tx_context.spec_is_sequencer_the_sender() {
        lemma_self_transfer_keeps_balance(cells, token, keys, fee);
    }
}

/// A transaction that is rolled back and charged has its nonce raised by
/// exactly one and its fee taken off the sender's balance, and nothing
/// that the execute phase wrote is left.
///
/// The stacks are those that the steps of the machine leave. The phases
/// run outside: each is taken to keep to its own layer, and the validate
/// phase to record true first reads and to leave the sender's nonce as it
/// found it. After the rollback every cell shows what it showed when the
/// execute phase was opened. After the fee step the sender's nonce is the
/// one before the transaction plus one, and the sender's balance is the
/// one that the validate phase left less the fee; where the sender is the
/// sequencer, the fee comes back to the same balance.
pub proof fn lemma_revert_bumps_nonce_once_and_charges(
    base: spec_fn(CellKey) -> Felt,
    before: Seq<LayerView>,
    tx_context: TransactionContext,
    kind: TransactionKind,
    flags: ExecutionFlags,
    validate_ran: Seq<LayerView>,
    validate_resources: ExecutionResources,
    execute_ran: Seq<LayerView>,
    outcome: PhaseOutcome,
)
    requires
        before.len() >= 1,
        tx_context.sender_balance_keys.valid(),
        tx_context.block_context.block_info.sequencer_balance_keys.valid(),
        tx_context.tx_info.spec_common_fields().version != TransactionVersion::Zero,
        flags.charge_fee,
        spec_admission(ledger(base, before), tx_context, kind, flags) is Ok,
        flags.validate ==> {
            &&& kept_to_top_layer(
                stack_after_admission(base, before, tx_context, kind, flags),
                validate_ran,
            )
            &&& reads_consistent(base, validate_ran)
            &&& ledger(base, validate_ran)[CellKey::Nonce(
                tx_context.tx_info.spec_common_fields().sender_address,
            )] == spec_cells_after_admission(ledger(base, before), tx_context)[CellKey::Nonce(
                tx_context.tx_info.spec_common_fields().sender_address,
            )]
        },
        kept_to_top_layer(
            stack_before_execute(base, before, tx_context, kind, flags, validate_ran),
            execute_ran,
        ),
        spec_execute_verdict(
            base,
            execute_ran,
            tx_context,
            kind,
            flags,
            validate_resources,
            outcome,
        ) matches ExecuteVerdict::Reverted(receipt, _) && receipt.fee > 0 && spec_fee_step(
            ledger(
                base,
                stack_rolled_back(
                    base,
                    execute_ran,
                    tx_context,
                    flags,
                    validate_resources,
                    outcome,
                ),
            ),
            tx_context,
            flags,
            receipt.fee,
        ) is Ok,
    ensures
        ({
            let fee = spec_execute_verdict(
                base,
                execute_ran,
                tx_context,
                kind,
                flags,
                validate_resources,
                outcome,
            )->Reverted_0.fee;
            let rolled_back = ledger(
                base,
                stack_rolled_back(
                    base,
                    execute_ran,
                    tx_context,
                    flags,
                    validate_resources,
                    outcome,
                ),
            );
            let validated = cells_before_execute(base, before, tx_context, flags, validate_ran);
            let after = spec_fee_step(rolled_back, tx_context, flags, fee)->Ok_0;
            let sender = tx_context.tx_info.spec_common_fields().sender_address;
            let token = tx_context.spec_fee_token_address();
            let keys = tx_context.sender_balance_keys;
            &&& rolled_back == validated
            &&& after[CellKey::Nonce(sender)].value() == ledger(base, before)[CellKey::Nonce(
                sender,
            )].value() + 1
            &&& spec_balance(validated, token, keys) matches Some(balance) && spec_balance(
                after,
                token,
                keys,
            ) matches Some(rest) && if tx_context.spec_is_sequencer_the_sender() {
                rest == balance
            } else {
                rest.value() == balance.value() - fee
            }
        }),
{
    let sender = tx_context.tx_info.spec_common_fields().sender_address;
    let admission = stack_after_admission(base, before, tx_context, kind, flags);
    let own = stack_with_own_layer(base, before, tx_context, kind, flags);
    let at_execute = stack_before_execute(base, before, tx_context, kind, flags, validate_ran);
    let validated = cells_before_execute(base, before, tx_context, flags, validate_ran);
    let kept = execute_ran.drop_last();
    let fee = spec_execute_verdict(
        base,
        execute_ran,
        tx_context,
        kind,
        flags,
        validate_resources,
        outcome,
    )->Reverted_0.fee;
    lemma_admission_raises_nonce_only(base, before, tx_context, kind, flags);
    if flags.validate {
        let merged = merged_stack(validate_ran);
        lemma_commit_keeps_ledger(base, validate_ran);
        assert(merged.push(LayerView::empty()).drop_last() =~= merged);
        assert(at_execute.drop_last() =~= merged);
    } else {
        assert(at_execute.drop_last() == own);
    }
    assert(ledger(base, kept) == validated);
    lemma_charge_only_reads(
        base,
        kept,
        tx_context,
        spec_reverted_computation(validate_resources, outcome, tx_context),
        flags.charge_fee,
    );
    lemma_fee_step_debits_sender(validated, tx_context, flags, fee);
    let nonce = ledger(base, before)[CellKey::Nonce(sender)];
    assert(nonce.spec_checked_next() is Some);
    assert(nonce.spec_checked_next()->Some_0.value() == nonce.value() + 1);
}

/// Whether a layer has neither read the cell nor written to it.
pub open spec fn knows_nothing_of(layer: LayerView, key: CellKey) -> bool {
    !layer.initial_reads.contains_key(key) && !layer.writes.contains_key(key)
}

/// The stack that the step after the execute phase leaves where the
/// transaction goes on to the fee step: the phase's layer merged into the
/// transaction's own, or dropped, with the reads of the charge recorded.
pub open spec fn stack_after_execute_step(
    base: spec_fn(CellKey) -> Felt,
    execute_ran: Seq<LayerView>,
    tx_context: TransactionContext,
    kind: TransactionKind,
    flags: ExecutionFlags,
    validate_resources: ExecutionResources,
    outcome: PhaseOutcome,
) -> Seq<LayerView> {
    if spec_execute_verdict(
        base,
        execute_ran,
        tx_context,
        kind,
        flags,
        validate_resources,
        outcome,
    ) is Kept {
        stack_after_charge(
            base,
            merged_stack(stack_after_execute(execute_ran, kind)),
            tx_context,
            spec_kept_computation(validate_resources, outcome, tx_context),
            flags.charge_fee,
        )
    } else {
        stack_rolled_back(base, execute_ran, tx_context, flags, validate_resources, outcome)
    }
}

/// Whether a layer holds of a cell what a phase recorded of it and no
/// more: the phase's write, the phase's first read, and no first read but
/// of a cell that the phase read or wrote to.
pub open spec fn holds_what_phase_recorded(layer: LayerView, phase: LayerView, key: CellKey) -> bool {
    &&& layer.writes.contains_key(key) == phase.writes.contains_key(key)
    &&& phase.writes.contains_key(key) ==> layer.writes[key] == phase.writes[key]
    &&& phase.initial_reads.contains_key(key) ==> layer.initial_reads.contains_key(key)
        && layer.initial_reads[key] == phase.initial_reads[key]
    &&& layer.initial_reads.contains_key(key) ==> phase.initial_reads.contains_key(key)
        || phase.writes.contains_key(key)
}

/// Admission records nothing of the sequencer's balance in the
/// transaction's own layer, where the sender is not the sequencer.
proof fn lemma_admission_spares_sequencer(
    base: spec_fn(CellKey) -> Felt,
    before: Seq<LayerView>,
    tx_context: TransactionContext,
    kind: TransactionKind,
    flags: ExecutionFlags,
    cell: CellKey,
)
    requires
        tx_context.sender_balance_keys.spec_disjoint(
            tx_context.block_context.block_info.sequencer_balance_keys,
        ),
        cell == low_cell(
            tx_context.spec_fee_token_address(),
            tx_context.block_context.block_info.sequencer_balance_keys,
        ) || cell == high_cell(
            tx_context.spec_fee_token_address(),
            tx_context.block_context.block_info.sequencer_balance_keys,
        ),
    ensures
        knows_nothing_of(stack_with_own_layer(base, before, tx_context, kind, flags).last(), cell),
{
    let token = tx_context.spec_fee_token_address();
    let sender = tx_context.sender_balance_keys;
    let fields = tx_context.tx_info.spec_common_fields();
    let nonce = CellKey::Nonce(fields.sender_address);
    let opened = before.push(LayerView::empty());
    let raised = if fields.version != TransactionVersion::Zero {
        stack_after_set(
            stack_after_get(base, opened, nonce),
            nonce,
            visible(base, before, nonce).spec_checked_next()->Some_0,
        )
    } else {
        opened
    };
    assert(knows_nothing_of(raised.last(), cell));
    let looked_up = if kind matches TransactionKind::Declare { class_hash, .. }
        && fields.version.spec_number() >= 2 {
        stack_after_get(base, raised, CellKey::Declared(kind->Declare_class_hash))
    } else {
        raised
    };
    assert(knows_nothing_of(looked_up.last(), cell));
    let low = stack_after_get(base, looked_up, low_cell(token, sender));
    assert(knows_nothing_of(low.last(), cell));
    assert(knows_nothing_of(stack_after_get(base, low, high_cell(token, sender)).last(), cell));
}

/// Where the validate phase records nothing of a cell that admission
/// spared, the layer that the execute phase stands on knows nothing of it.
proof fn lemma_validation_spares_sequencer(
    base: spec_fn(CellKey) -> Felt,
    before: Seq<LayerView>,
    tx_context: TransactionContext,
    kind: TransactionKind,
    flags: ExecutionFlags,
    validate_ran: Seq<LayerView>,
    cell: CellKey,
)
    requires
        before.len() >= 1,
        knows_nothing_of(stack_with_own_layer(base, before, tx_context, kind, flags).last(), cell),
        flags.validate ==> {
            &&& kept_to_top_layer(
                stack_after_admission(base, before, tx_context, kind, flags),
                validate_ran,
            )
            &&& knows_nothing_of(validate_ran.last(), cell)
        },
    ensures
        stack_before_execute(base, before, tx_context, kind, flags, validate_ran).len() >= 2,
        knows_nothing_of(
            stack_before_execute(
                base,
                before,
                tx_context,
                kind,
                flags,
                validate_ran,
            ).drop_last().last(),
            cell,
        ),
{
    let own = stack_with_own_layer(base, before, tx_context, kind, flags);
    let at_execute = stack_before_execute(base, before, tx_context, kind, flags, validate_ran);
    lemma_admission_raises_nonce_only(base, before, tx_context, kind, flags);
    if flags.validate {
        let merged = merged_stack(validate_ran);
        assert(validate_ran.drop_last() == own);
        assert(validate_ran[validate_ran.len() - 2] == validate_ran.drop_last().last());
        assert(knows_nothing_of(merged.last(), cell));
        assert(merged.push(LayerView::empty()).drop_last() =~= merged);
        assert(at_execute.drop_last() =~= merged);
    } else {
        assert(at_execute.drop_last() == own);
    }
}

/// The step after the execute phase leaves of a cell that the
/// transaction's own layer knew nothing of, and that is no balance cell of
/// the sender, what the phase recorded of it if the phase is kept, and
/// nothing if it is rolled back.
proof fn lemma_execute_step_spares_sequencer(
    base: spec_fn(CellKey) -> Felt,
    execute_ran: Seq<LayerView>,
    tx_context: TransactionContext,
    kind: TransactionKind,
    flags: ExecutionFlags,
    validate_resources: ExecutionResources,
    outcome: PhaseOutcome,
    cell: CellKey,
)
    requires
        execute_ran.len() >= 2,
        knows_nothing_of(execute_ran.drop_last().last(), cell),
        cell is Storage,
        cell != low_cell(tx_context.spec_fee_token_address(), tx_context.sender_balance_keys),
        cell != high_cell(tx_context.spec_fee_token_address(), tx_context.sender_balance_keys),
    ensures
        ({
            let executed = stack_after_execute_step(
                base,
                execute_ran,
                tx_context,
                kind,
                flags,
                validate_resources,
                outcome,
            );
            &&& executed.len() >= 1
            &&& if spec_execute_verdict(
                base,
                execute_ran,
                tx_context,
                kind,
                flags,
                validate_resources,
                outcome,
            ) is Kept {
                holds_what_phase_recorded(executed.last(), execute_ran.last(), cell)
            } else {
                knows_nothing_of(executed.last(), cell)
            }
        }),
{
    let kept = execute_ran.drop_last();
    let finished = stack_after_execute(execute_ran, kind);
    assert(holds_what_phase_recorded(finished.last(), execute_ran.last(), cell));
    assert(finished[finished.len() - 2] == kept.last());
    assert(holds_what_phase_recorded(merged_stack(finished).last(), execute_ran.last(), cell));
    lemma_charge_only_reads(
        base,
        merged_stack(finished),
        tx_context,
        spec_kept_computation(validate_resources, outcome, tx_context),
        flags.charge_fee,
    );
    lemma_charge_only_reads(
        base,
        kept,
        tx_context,
        spec_reverted_computation(validate_resources, outcome, tx_context),
        flags.charge_fee,
    );
}

/// In a concurrent run of a sender that is not the sequencer, the machine
/// itself never touches the sequencer's balance. Where the validate phase
/// has neither read nor written one of its two cells, the transaction's
/// layer holds of the cell, once the fee is charged, what the execute
/// phase recorded of it if the phase is kept, and nothing if it is rolled
/// back, whatever fee is charged. So a transaction that pays the sequencer
/// leaves the first read and the write of its own transfer, and one that
/// never looks at the sequencer's balance leaves neither.
pub proof fn lemma_concurrent_run_spares_sequencer(
    base: spec_fn(CellKey) -> Felt,
    before: Seq<LayerView>,
    tx_context: TransactionContext,
    kind: TransactionKind,
    flags: ExecutionFlags,
    validate_ran: Seq<LayerView>,
    validate_resources: ExecutionResources,
    execute_ran: Seq<LayerView>,
    outcome: PhaseOutcome,
    fee: Fee,
    cell: CellKey,
)
    requires
        before.len() >= 1,
        flags.concurrency_mode,
        !tx_context.spec_is_sequencer_the_sender(),
        tx_context.spec_balance_keys_consistent(),
        cell == low_cell(
            tx_context.spec_fee_token_address(),
            tx_context.block_context.block_info.sequencer_balance_keys,
        ) || cell == high_cell(
            tx_context.spec_fee_token_address(),
            tx_context.block_context.block_info.sequencer_balance_keys,
        ),
        flags.validate ==> {
            &&& kept_to_top_layer(
                stack_after_admission(base, before, tx_context, kind, flags),
                validate_ran,
            )
            &&& knows_nothing_of(validate_ran.last(), cell)
        },
        kept_to_top_layer(
            stack_before_execute(base, before, tx_context, kind, flags, validate_ran),
            execute_ran,
        ),
    ensures
        ({
            let charged = stack_after_fee_step(
                base,
                stack_after_execute_step(
                    base,
                    execute_ran,
                    tx_context,
                    kind,
                    flags,
                    validate_resources,
                    outcome,
                ),
                tx_context,
                flags,
                fee,
            );
            if spec_execute_verdict(
                base,
                execute_ran,
                tx_context,
                kind,
                flags,
                validate_resources,
                outcome,
            ) is Kept {
                holds_what_phase_recorded(charged.last(), execute_ran.last(), cell)
            } else {
                knows_nothing_of(charged.last(), cell)
            }
        }),
{
    let token = tx_context.spec_fee_token_address();
    let sender = tx_context.sender_balance_keys;
    let sequencer = tx_context.block_context.block_info.sequencer_balance_keys;
    assert(sender.spec_disjoint(sequencer));
    lemma_admission_spares_sequencer(base, before, tx_context, kind, flags, cell);
    lemma_validation_spares_sequencer(base, before, tx_context, kind, flags, validate_ran, cell);
    lemma_execute_step_spares_sequencer(
        base,
        execute_ran,
        tx_context,
        kind,
        flags,
        validate_resources,
        outcome,
        cell,
    );
    let executed = stack_after_execute_step(
        base,
        execute_ran,
        tx_context,
        kind,
        flags,
        validate_resources,
        outcome,
    );
    // The fee step, with the sequencer's share put off.
    assert(spec_deferred(tx_context, flags.concurrency_mode));
    let read_low = stack_after_get(base, executed, low_cell(token, sender));
    let read = stack_after_balance_read(base, executed, token, sender);
    if spec_execute_verdict(
        base,
        execute_ran,
        tx_context,
        kind,
        flags,
        validate_resources,
        outcome,
    ) is Kept {
        assert(holds_what_phase_recorded(read_low.last(), execute_ran.last(), cell));
        assert(holds_what_phase_recorded(read.last(), execute_ran.last(), cell));
    } else {
        assert(knows_nothing_of(read_low.last(), cell));
        assert(knows_nothing_of(read.last(), cell));
    }
}

/// What a transaction is charged does not depend on the maximal fee it
/// declares: two legacy transactions that differ in nothing but their
/// maximal fee get the same receipt for the same changes and the same
/// computation.
pub proof fn lemma_receipt_is_independent_of_max_fee(
    low: TransactionContext,
    high: TransactionContext,
    count: StateChangesCount,
    computation: ComputationResources,
)
    requires
        low.block_context == high.block_context,
        low.tx_info is Deprecated,
        high.tx_info is Deprecated,
    ensures
        spec_receipt(low, count, computation) == spec_receipt(high, count, computation),
{
}

/// A transaction whose fee is enforced, and whose price bounds are no
/// lower than the block's prices, is never charged more than it allows:
/// for gas that is laid out as the transaction's bounds call for, what the
/// check after execution recommends stays within the maximal fee, or within
/// what the resource bounds add up to.
pub proof fn lemma_charge_stays_within_bounds(
    cells: Map<CellKey, Felt>,
    tx_context: TransactionContext,
    gas: GasVector,
)
    requires
        tx_context.tx_info.spec_enforce_fee(),
        spec_price_too_low(tx_context) is None,
        tx_context.spec_gas_prices().valid(),
        gas.spec_cost(tx_context.spec_gas_prices()) <= u128::MAX,
        tx_context.tx_info.spec_gas_mode() == GasVectorComputationMode::NoL2Gas ==> gas.l2_gas
            == 0,
    ensures
        spec_post_execution_report(
            cells,
            tx_context,
            gas,
            gas.spec_cost(tx_context.spec_gas_prices()) as u128,
            true,
        ).recommended_fee <= tx_context.tx_info.spec_max_fee(),
        spec_check_actual_fee_in_bounds(
            tx_context.tx_info,
            spec_post_execution_report(
                cells,
                tx_context,
                gas,
                gas.spec_cost(tx_context.spec_gas_prices()) as u128,
                true,
            ).recommended_fee,
        ) is Ok,
{
    let prices = tx_context.spec_gas_prices();
    let fee = gas.spec_cost(prices);
    let l1_price = prices.l1_gas_price.get() as nat;
    let data_price = prices.l1_data_gas_price.get() as nat;
    let l2_price = prices.l2_gas_price.get() as nat;
    let report = spec_post_execution_report(cells, tx_context, gas, fee as u128, true);
    let max_fee = tx_context.tx_info.spec_max_fee();
    if spec_check_actual_cost_within_bounds(tx_context, gas, fee as u128) is Ok {
        assert(report.recommended_fee == fee);
        match tx_context.tx_info {
            TransactionInfo::Deprecated(_) => {},
            TransactionInfo::Current(info) => match info.resource_bounds {
                ValidResourceBounds::AllResources(all) => {
                    lemma_product_monotonic(
                        gas.l1_gas as nat,
                        l1_price,
                        all.l1_gas.max_amount as nat,
                        all.l1_gas.max_price_per_unit as nat,
                    );
                    lemma_product_monotonic(
                        gas.l1_data_gas as nat,
                        data_price,
                        all.l1_data_gas.max_amount as nat,
                        all.l1_data_gas.max_price_per_unit as nat,
                    );
                    lemma_product_monotonic(
                        gas.l2_gas as nat,
                        l2_price,
                        all.l2_gas.max_amount as nat,
                        all.l2_gas.max_price_per_unit as nat,
                    );
                    assert(fee <= info.resource_bounds.spec_max_possible_fee());
                    assert(fee <= max_fee);
                },
                ValidResourceBounds::L1Gas(l1) => {
                    // The data gas, paid for in L1 gas and rounded up, costs
                    // no less than the data gas itself.
                    let data_fee = (gas.l1_data_gas as nat) * data_price;
                    let in_l1_units = ceil_div(data_fee, l1_price);
                    lemma_fundamental_div_mod(data_fee as int, l1_price as int);
                    assert(in_l1_units * l1_price >= data_fee) by (nonlinear_arith)
                        requires
                            data_fee == l1_price * (data_fee / l1_price) + data_fee % l1_price,
                            0 <= data_fee % l1_price < l1_price,
                            in_l1_units == if data_fee % l1_price == 0 {
                                data_fee / l1_price
                            } else {
                                data_fee / l1_price + 1
                            },
                    ;
                    assert(0 <= (gas.l2_gas as nat) * l2_price) by (nonlinear_arith);
                    let discounted = gas.l1_gas as nat + in_l1_units;
                    assert(discounted * l1_price == (gas.l1_gas as nat) * l1_price + in_l1_units
                        * l1_price) by (nonlinear_arith)
                        requires
                            discounted == gas.l1_gas as nat + in_l1_units,
                    ;
                    assert(data_fee <= fee) by (nonlinear_arith)
                        requires
                            fee == (gas.l1_gas as nat) * l1_price + data_fee + (gas.l2_gas as nat)
                                * l2_price,
                            data_fee >= 0,
                    ;
                    assert(discounted <= l1.max_amount);
                    lemma_product_monotonic(
                        discounted,
                        l1_price,
                        l1.max_amount as nat,
                        l1.max_price_per_unit as nat,
                    );
                    assert(fee <= discounted * l1_price + (gas.l2_gas as nat) * l2_price);
                    assert(fee <= max_fee);
                },
            },
        }
    } else {
        assert(report.recommended_fee == max_fee);
    }
}

/// A product grows with both of its factors.
pub proof fn lemma_product_monotonic(a: nat, b: nat, c: nat, d: nat)
    requires
        a <= c,
        b <= d,
    ensures
        a * b <= c * d,
{
    assert(a * b <= c * d) by (nonlinear_arith)
        requires
            a <= c,
            b <= d,
    ;
}

} // verus!
