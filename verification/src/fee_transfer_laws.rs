//! Putting the sequencer's share of fee transfers off changes when its
//! balance is written, never what it ends up as.

use vstd::prelude::*;
use crate::context::{BalanceKeys, TransactionContext};
use crate::fee_transfer::{
    spec_balance,
    spec_credit_cells,
    spec_debit_cells,
    spec_deferred,
    spec_fee_transfer,
    spec_sequential_transfer,
    with_balance,
    FeeTransferError,
};
use crate::felt::{ContractAddress, Felt};
use crate::gas::Fee;
use crate::state_map::CellKey;

verus! {

/// The fee transfer of one transaction: whose balance pays, and how much.
pub struct FeeCharge {
    pub sender: BalanceKeys,
    pub fee: Fee,
}

/// The cells after the given transfers were carried out one after the
/// other, each at once.
pub open spec fn sequential_all(
    cells: Map<CellKey, Felt>,
    token: ContractAddress,
    sequencer: BalanceKeys,
    charges: Seq<FeeCharge>,
) -> Result<Map<CellKey, Felt>, FeeTransferError>
    decreases charges.len(),
{
    if charges.len() == 0 {
        Ok(cells)
    } else {
        match sequential_all(cells, token, sequencer, charges.drop_last()) {
            Err(e) => Err(e),
            Ok(before) => spec_sequential_transfer(
                before,
                token,
                charges.last().sender,
                sequencer,
                charges.last().fee,
            ),
        }
    }
}

/// The cells after each sender paid, the sequencer's share being put off.
pub open spec fn debit_all(cells: Map<CellKey, Felt>, token: ContractAddress, charges: Seq<FeeCharge>) -> Result<
    Map<CellKey, Felt>,
    FeeTransferError,
>
    decreases charges.len(),
{
    if charges.len() == 0 {
        Ok(cells)
    } else {
        match debit_all(cells, token, charges.drop_last()) {
            Err(e) => Err(e),
            Ok(before) => spec_debit_cells(before, token, charges.last().sender, charges.last().fee),
        }
    }
}

/// The cells after the sequencer received its shares, in submission order.
pub open spec fn credit_all(
    cells: Map<CellKey, Felt>,
    token: ContractAddress,
    sequencer: BalanceKeys,
    charges: Seq<FeeCharge>,
) -> Result<Map<CellKey, Felt>, FeeTransferError>
    decreases charges.len(),
{
    if charges.len() == 0 {
        Ok(cells)
    } else {
        match credit_all(cells, token, sequencer, charges.drop_last()) {
            Err(e) => Err(e),
            Ok(before) => spec_credit_cells(before, token, sequencer, charges.last().fee),
        }
    }
}

/// The cells after the given transfers ran with the sequencer's share put
/// off, and the shares were then added in submission order.
pub open spec fn concurrent_all(
    cells: Map<CellKey, Felt>,
    token: ContractAddress,
    sequencer: BalanceKeys,
    charges: Seq<FeeCharge>,
) -> Result<Map<CellKey, Felt>, FeeTransferError> {
    match debit_all(cells, token, charges) {
        Err(e) => Err(e),
        Ok(debited) => credit_all(debited, token, sequencer, charges),
    }
}

/// Whether two results agree: both fail, or both succeed with the same
/// cells.
pub open spec fn same_outcome(
    a: Result<Map<CellKey, Felt>, FeeTransferError>,
    b: Result<Map<CellKey, Felt>, FeeTransferError>,
) -> bool {
    match (a, b) {
        (Ok(x), Ok(y)) => x == y,
        (Err(_), Err(_)) => true,
        _ => false,
    }
}

/// Every sender's balance cells are apart from the sequencer's.
pub open spec fn senders_apart(sequencer: BalanceKeys, charges: Seq<FeeCharge>) -> bool {
    forall|i: int|
        0 <= i < charges.len() ==> (#[trigger] charges[i]).sender.spec_disjoint(sequencer)
            && charges[i].sender.valid()
}

/// Taking a fee off one balance and adding a fee to another, whose cells
/// are apart from the first, can be done in either order.
pub proof fn lemma_debit_credit_commute(
    cells: Map<CellKey, Felt>,
    token: ContractAddress,
    sender: BalanceKeys,
    sequencer: BalanceKeys,
    debit_fee: Fee,
    credit_fee: Fee,
)
    requires
        sender.spec_disjoint(sequencer),
        sender.valid(),
        sequencer.valid(),
    ensures
        same_outcome(
            match spec_debit_cells(cells, token, sender, debit_fee) {
                Err(e) => Err(e),
                Ok(c) => spec_credit_cells(c, token, sequencer, credit_fee),
            },
            match spec_credit_cells(cells, token, sequencer, credit_fee) {
                Err(e) => Err(e),
                Ok(c) => spec_debit_cells(c, token, sender, debit_fee),
            },
        ),
{
    let debited = spec_debit_cells(cells, token, sender, debit_fee);
    let credited = spec_credit_cells(cells, token, sequencer, credit_fee);
    if debited is Ok {
        assert(spec_balance(debited->Ok_0, token, sequencer) == spec_balance(
            cells,
            token,
            sequencer,
        ));
    }
    if credited is Ok {
        assert(spec_balance(credited->Ok_0, token, sender) == spec_balance(cells, token, sender));
    }
    if debited is Ok && credited is Ok {
        let rest = spec_balance(cells, token, sender)->Some_0.spec_debit(debit_fee)->Some_0;
        let sum = spec_balance(cells, token, sequencer)->Some_0.spec_credit(credit_fee)->Some_0;
        assert(with_balance(with_balance(cells, token, sender, rest), token, sequencer, sum)
            =~= with_balance(with_balance(cells, token, sequencer, sum), token, sender, rest));
    }
}

/// Taking a fee off a sender's balance can be moved past any number of
/// additions to the sequencer's.
pub proof fn lemma_debit_commutes_with_credits(
    cells: Map<CellKey, Felt>,
    token: ContractAddress,
    sender: BalanceKeys,
    sequencer: BalanceKeys,
    fee: Fee,
    charges: Seq<FeeCharge>,
)
    requires
        sender.spec_disjoint(sequencer),
        sender.valid(),
        sequencer.valid(),
    ensures
        same_outcome(
            match spec_debit_cells(cells, token, sender, fee) {
                Err(e) => Err(e),
                Ok(c) => credit_all(c, token, sequencer, charges),
            },
            match credit_all(cells, token, sequencer, charges) {
                Err(e) => Err(e),
                Ok(c) => spec_debit_cells(c, token, sender, fee),
            },
        ),
    decreases charges.len(),
{
    if charges.len() > 0 {
        let init = charges.drop_last();
        let last = charges.last();
        lemma_debit_commutes_with_credits(cells, token, sender, sequencer, fee, init);
        let debited = spec_debit_cells(cells, token, sender, fee);
        let credited_init = credit_all(cells, token, sequencer, init);
        if credited_init is Ok {
            lemma_debit_credit_commute(
                credited_init->Ok_0,
                token,
                sender,
                sequencer,
                fee,
                last.fee,
            );
        } else if debited is Ok {
            assert(credit_all(debited->Ok_0, token, sequencer, init) is Err);
        }
    }
}

/// Running fee transfers with the sequencer's share put off, and adding
/// the shares afterwards in submission order, ends in the same balances as
/// running the transfers one after the other, each at once: both fail, or
/// both end in the same cells.
pub proof fn lemma_concurrent_equals_sequential(
    cells: Map<CellKey, Felt>,
    token: ContractAddress,
    sequencer: BalanceKeys,
    charges: Seq<FeeCharge>,
)
    requires
        sequencer.valid(),
        senders_apart(sequencer, charges),
    ensures
        same_outcome(
            concurrent_all(cells, token, sequencer, charges),
            sequential_all(cells, token, sequencer, charges),
        ),
    decreases charges.len(),
{
    if charges.len() > 0 {
        let init = charges.drop_last();
        let last = charges.last();
        assert forall|i: int| 0 <= i < init.len() implies (#[trigger] init[i]).sender.spec_disjoint(
            sequencer,
        ) && init[i].sender.valid() by {
            assert(init[i] == charges[i]);
        }
        assert(charges[charges.len() - 1].sender.spec_disjoint(sequencer));
        lemma_concurrent_equals_sequential(cells, token, sequencer, init);
        let debited_init = debit_all(cells, token, init);
        if debited_init is Ok {
            lemma_debit_commutes_with_credits(
                debited_init->Ok_0,
                token,
                last.sender,
                sequencer,
                last.fee,
                init,
            );
        }
    }
}

/// With the sender being the sequencer the share is never put off: the
/// transfer is the one that is carried out at once, whatever the mode.
pub proof fn lemma_sequencer_sender_is_not_deferred(
    cells: Map<CellKey, Felt>,
    tx_context: TransactionContext,
    fee: Fee,
    concurrency_mode: bool,
)
    requires
        tx_context.spec_is_sequencer_the_sender(),
    ensures
        !spec_deferred(tx_context, concurrency_mode),
        spec_fee_transfer(cells, tx_context, fee, concurrency_mode) == spec_fee_transfer(
            cells,
            tx_context,
            fee,
            false,
        ),
{
}

/// A transfer from the sequencer to itself leaves its balance what it was,
/// written in its two cells.
pub proof fn lemma_self_transfer_keeps_balance(
    cells: Map<CellKey, Felt>,
    token: ContractAddress,
    keys: BalanceKeys,
    fee: Fee,
)
    requires
        keys.valid(),
    ensures
        spec_sequential_transfer(cells, token, keys, keys, fee) matches Ok(after) ==> spec_balance(
            after,
            token,
            keys,
        ) == spec_balance(cells, token, keys) && after == with_balance(
            cells,
            token,
            keys,
            spec_balance(cells, token, keys)->Some_0,
        ),
        spec_sequential_transfer(cells, token, keys, keys, fee) is Ok <==> (spec_balance(
            cells,
            token,
            keys,
        ) matches Some(b) && b.spec_debit(fee) is Some),
{
    if let Some(b) = spec_balance(cells, token, keys) {
        if let Some(rest) = b.spec_debit(fee) {
            let debited = with_balance(cells, token, keys, rest);
            assert(spec_balance(debited, token, keys) == Some(rest));
            assert(rest.spec_credit(fee) == Some(b));
            assert(with_balance(debited, token, keys, b) =~= with_balance(cells, token, keys, b));
        }
    }
}

} // verus!
