//! What holds of a stack of layers whatever it contains.

use vstd::prelude::*;
use crate::felt::Felt;
use crate::state::{net_writes, reads_consistent, visible, LayerView};
use crate::state_map::CellKey;

verus! {

/// A key is among the first `j + 1` of a sequence exactly when it is among
/// the first `j` or is the one at position `j`.
pub proof fn lemma_take_contains<T>(keys: Seq<T>, j: int, x: T)
    requires
        0 <= j < keys.len(),
    ensures
        keys.take(j + 1).contains(x) <==> (keys.take(j).contains(x) || x == keys[j]),
{
    if keys.take(j).contains(x) {
        let a = keys.take(j).index_of(x);
        assert(keys.take(j + 1)[a] == x);
    }
    if x == keys[j] {
        assert(keys.take(j + 1)[j] == x);
    }
    if keys.take(j + 1).contains(x) {
        let a = keys.take(j + 1).index_of(x);
        if a < j {
            assert(keys.take(j)[a] == x);
        }
    }
}

/// A layer that knows nothing is transparent.
pub proof fn lemma_visible_through_empty(
    base: spec_fn(CellKey) -> Felt,
    layers: Seq<LayerView>,
    key: CellKey,
)
    ensures
        visible(base, layers.push(LayerView::empty()), key) == visible(base, layers, key),
{
    assert(layers.push(LayerView::empty()).drop_last() =~= layers);
}

/// The layers below a consistent stack are consistent.
pub proof fn lemma_consistent_prefix(base: spec_fn(CellKey) -> Felt, layers: Seq<LayerView>, m: int)
    requires
        reads_consistent(base, layers),
        0 <= m <= layers.len(),
    ensures
        reads_consistent(base, layers.take(m)),
{
    assert forall|i: int, k: CellKey|
        0 <= i < layers.take(m).len() && #[trigger] layers.take(m)[i].initial_reads.contains_key(
            k,
        ) implies layers.take(m)[i].initial_reads[k] == visible(base, layers.take(m).take(i), k) by {
        assert(layers.take(m).take(i) =~= layers.take(i));
        assert(layers[i].initial_reads.contains_key(k));
    }
}

/// Opening an empty layer keeps a stack consistent.
pub proof fn lemma_consistent_push_empty(base: spec_fn(CellKey) -> Felt, layers: Seq<LayerView>)
    requires
        reads_consistent(base, layers),
    ensures
        reads_consistent(base, layers.push(LayerView::empty())),
{
    let after = layers.push(LayerView::empty());
    assert forall|i: int, k: CellKey|
        0 <= i < after.len() && #[trigger] after[i].initial_reads.contains_key(k) implies after[i].initial_reads[k]
        == visible(base, after.take(i), k) by {
        assert(i < layers.len());
        assert(after.take(i) =~= layers.take(i));
        assert(layers[i].initial_reads.contains_key(k));
    }
}

/// Changing what the top layer wrote keeps a stack consistent, and so does
/// recording, as a first read of the top layer, the value visible below it.
pub proof fn lemma_consistent_update_top(
    base: spec_fn(CellKey) -> Felt,
    layers: Seq<LayerView>,
    top: LayerView,
)
    requires
        layers.len() >= 1,
        reads_consistent(base, layers),
        forall|k: CellKey| #[trigger]
            top.initial_reads.contains_key(k) ==> top.initial_reads[k] == visible(
                base,
                layers.drop_last(),
                k,
            ),
    ensures
        reads_consistent(base, layers.update(layers.len() - 1, top)),
{
    let after = layers.update(layers.len() - 1, top);
    assert forall|i: int, k: CellKey|
        0 <= i < after.len() && #[trigger] after[i].initial_reads.contains_key(k) implies after[i].initial_reads[k]
        == visible(base, after.take(i), k) by {
        assert(after.take(i) =~= layers.take(i));
        if i < layers.len() - 1 {
            assert(layers[i].initial_reads.contains_key(k));
        } else {
            assert(layers.take(i) =~= layers.drop_last());
        }
    }
}

/// In a consistent stack a first read of the top layer holds the value
/// that is visible below it, so looking past it changes nothing.
pub proof fn lemma_visible_of_consistent(
    base: spec_fn(CellKey) -> Felt,
    layers: Seq<LayerView>,
    key: CellKey,
)
    requires
        layers.len() >= 1,
        reads_consistent(base, layers),
        !layers.last().writes.contains_key(key),
    ensures
        visible(base, layers, key) == visible(base, layers.drop_last(), key),
{
    if layers.last().initial_reads.contains_key(key) {
        let i = layers.len() - 1;
        assert(layers[i].initial_reads.contains_key(key));
        assert(layers.take(i) =~= layers.drop_last());
    }
}

/// The stack after a read of `key` from its top: where the top layer did
/// not know the cell, it holds the visible value as its first read.
pub open spec fn stack_after_get(
    base: spec_fn(CellKey) -> Felt,
    layers: Seq<LayerView>,
    key: CellKey,
) -> Seq<LayerView>
    recommends
        layers.len() >= 1,
{
    if layers.last().known(key) is Some {
        layers
    } else {
        layers.update(
            layers.len() - 1,
            LayerView {
                initial_reads: layers.last().initial_reads.insert(key, visible(base, layers, key)),
                writes: layers.last().writes,
            },
        )
    }
}

/// The stack after `value` was written to `key` at its top.
pub open spec fn stack_after_set(layers: Seq<LayerView>, key: CellKey, value: Felt) -> Seq<LayerView>
    recommends
        layers.len() >= 1,
{
    layers.update(
        layers.len() - 1,
        LayerView {
            initial_reads: layers.last().initial_reads,
            writes: layers.last().writes.insert(key, value),
        },
    )
}

/// The value of a cell as the topmost layer first saw it: its first read
/// of the cell, else what is visible below the layer.
pub open spec fn initial_value(base: spec_fn(CellKey) -> Felt, layers: Seq<LayerView>, key: CellKey) -> Felt
    recommends
        layers.len() >= 1,
{
    if layers.last().initial_reads.contains_key(key) {
        layers.last().initial_reads[key]
    } else {
        visible(base, layers.drop_last(), key)
    }
}

/// The net writes of the topmost layer: of the cells it wrote, those whose
/// value differs from the one the layer saw first.
pub open spec fn top_net_writes(base: spec_fn(CellKey) -> Felt, layers: Seq<LayerView>) -> Map<
    CellKey,
    Felt,
>
    recommends
        layers.len() >= 1,
{
    net_writes(|k: CellKey| initial_value(base, layers, k), layers.last().writes)
}

/// The stack after the net writes of its top layer were counted: for each
/// cell that the layer wrote without reading it, the layer holds the value
/// below it as its first read.
pub open spec fn stack_after_counting(base: spec_fn(CellKey) -> Felt, layers: Seq<LayerView>) -> Seq<
    LayerView,
>
    recommends
        layers.len() >= 1,
{
    layers.update(
        layers.len() - 1,
        LayerView {
            initial_reads: Map::new(
                |k: CellKey|
                    layers.last().initial_reads.contains_key(k) || layers.last().writes.contains_key(
                        k,
                    ),
                |k: CellKey| initial_value(base, layers, k),
            ),
            writes: layers.last().writes,
        },
    )
}

/// Reads that the top layer records leave its net writes what they were,
/// as long as each recorded read holds the value that was visible below
/// the layer and no recorded read is replaced.
pub proof fn lemma_net_writes_stable(
    base: spec_fn(CellKey) -> Felt,
    before: Seq<LayerView>,
    after: Seq<LayerView>,
)
    requires
        before.len() >= 1,
        after.len() == before.len(),
        after.drop_last() == before.drop_last(),
        after.last().writes == before.last().writes,
        forall|k: CellKey| #[trigger]
            before.last().initial_reads.contains_key(k) ==> after.last().initial_reads.contains_key(
                k,
            ) && after.last().initial_reads[k] == before.last().initial_reads[k],
        forall|k: CellKey| #[trigger]
            after.last().initial_reads.contains_key(k) && !before.last().initial_reads.contains_key(
                k,
            ) ==> after.last().initial_reads[k] == visible(base, before.drop_last(), k),
    ensures
        top_net_writes(base, after) == top_net_writes(base, before),
        forall|k: CellKey| initial_value(base, after, k) == initial_value(base, before, k),
{
    assert forall|k: CellKey| initial_value(base, after, k) == initial_value(base, before, k) by {
        if before.last().initial_reads.contains_key(k) {
        } else if after.last().initial_reads.contains_key(k) {
        }
    }
    assert(top_net_writes(base, after) =~= top_net_writes(base, before));
}

/// Every cell with the value that is visible through the given layers.
pub open spec fn ledger(base: spec_fn(CellKey) -> Felt, layers: Seq<LayerView>) -> Map<CellKey, Felt> {
    Map::total(|k: CellKey| visible(base, layers, k))
}

/// A read changes no visible value.
pub proof fn lemma_get_keeps_ledger(
    base: spec_fn(CellKey) -> Felt,
    layers: Seq<LayerView>,
    key: CellKey,
)
    requires
        layers.len() >= 1,
    ensures
        ledger(base, stack_after_get(base, layers, key)) == ledger(base, layers),
{
    let after = stack_after_get(base, layers, key);
    assert forall|k: CellKey| visible(base, after, k) == visible(base, layers, k) by {
        assert(after.drop_last() =~= layers.drop_last());
    }
    assert(ledger(base, after) =~= ledger(base, layers));
}

/// After a write the written cell shows the written value and every other
/// cell shows what it showed before.
pub proof fn lemma_set_updates_ledger(
    base: spec_fn(CellKey) -> Felt,
    layers: Seq<LayerView>,
    key: CellKey,
    value: Felt,
)
    requires
        layers.len() >= 1,
    ensures
        ledger(base, stack_after_set(layers, key, value)) == ledger(base, layers).insert(key, value),
{
    let after = stack_after_set(layers, key, value);
    assert forall|k: CellKey| visible(base, after, k) == if k == key {
        value
    } else {
        visible(base, layers, k)
    } by {
        assert(after.drop_last() =~= layers.drop_last());
    }
    assert(ledger(base, after) =~= ledger(base, layers).insert(key, value));
}

/// Opening an empty layer changes no visible value.
pub proof fn lemma_push_empty_keeps_ledger(base: spec_fn(CellKey) -> Felt, layers: Seq<LayerView>)
    ensures
        ledger(base, layers.push(LayerView::empty())) == ledger(base, layers),
{
    assert forall|k: CellKey|
        visible(base, layers.push(LayerView::empty()), k) == visible(base, layers, k) by {
        lemma_visible_through_empty(base, layers, k);
    }
    assert(ledger(base, layers.push(LayerView::empty())) =~= ledger(base, layers));
}

/// Merging the top layer of a consistent stack into the one below it
/// changes no visible value.
pub proof fn lemma_commit_keeps_ledger(base: spec_fn(CellKey) -> Felt, layers: Seq<LayerView>)
    requires
        layers.len() >= 2,
        reads_consistent(base, layers),
    ensures
        ledger(base, merged_stack(layers)) == ledger(base, layers),
{
    assert forall|k: CellKey|
        visible(base, merged_stack(layers), k) == visible(base, layers, k) by {
        lemma_commit_keeps_visible(base, layers, k);
    }
    assert(ledger(base, merged_stack(layers)) =~= ledger(base, layers));
}

/// A read keeps a stack consistent, changes no visible value, and never
/// replaces a first read that was recorded before.
pub proof fn lemma_get_keeps_consistent(
    base: spec_fn(CellKey) -> Felt,
    layers: Seq<LayerView>,
    key: CellKey,
)
    requires
        layers.len() >= 1,
        reads_consistent(base, layers),
    ensures
        reads_consistent(base, stack_after_get(base, layers, key)),
        forall|k: CellKey|
            visible(base, stack_after_get(base, layers, key), k) == visible(base, layers, k),
        forall|k: CellKey| #[trigger]
            layers.last().initial_reads.contains_key(k) ==> stack_after_get(
                base,
                layers,
                key,
            ).last().initial_reads[k] == layers.last().initial_reads[k],
{
    let n = layers.len() as int;
    let after = stack_after_get(base, layers, key);
    assert(layers.take(n - 1) =~= layers.drop_last());
    if layers.last().known(key) is None {
        let top = after.last();
        assert forall|k: CellKey| #[trigger] top.initial_reads.contains_key(k) implies top.initial_reads[k]
            == visible(base, layers.drop_last(), k) by {
            if k != key {
                assert(layers[n - 1].initial_reads.contains_key(k));
            }
        }
        lemma_consistent_update_top(base, layers, top);
        assert forall|k: CellKey| visible(base, after, k) == visible(base, layers, k) by {
            assert(after.drop_last() =~= layers.drop_last());
        }
    }
}

/// A write keeps a stack consistent; afterwards the written cell shows the
/// written value and every other cell shows what it showed before.
pub proof fn lemma_set_keeps_consistent(
    base: spec_fn(CellKey) -> Felt,
    layers: Seq<LayerView>,
    key: CellKey,
    value: Felt,
)
    requires
        layers.len() >= 1,
        reads_consistent(base, layers),
    ensures
        reads_consistent(base, stack_after_set(layers, key, value)),
        visible(base, stack_after_set(layers, key, value), key) == value,
        forall|k: CellKey|
            k != key ==> visible(base, stack_after_set(layers, key, value), k) == visible(
                base,
                layers,
                k,
            ),
{
    let n = layers.len() as int;
    let after = stack_after_set(layers, key, value);
    assert(layers.take(n - 1) =~= layers.drop_last());
    let top = after.last();
    assert forall|k: CellKey| #[trigger] top.initial_reads.contains_key(k) implies top.initial_reads[k]
        == visible(base, layers.drop_last(), k) by {
        assert(layers[n - 1].initial_reads.contains_key(k));
    }
    lemma_consistent_update_top(base, layers, top);
    assert forall|k: CellKey| k != key implies visible(base, after, k) == visible(
        base,
        layers,
        k,
    ) by {
        assert(after.drop_last() =~= layers.drop_last());
    }
}

/// The stack after the top layer was merged into the one below it.
pub open spec fn merged_stack(layers: Seq<LayerView>) -> Seq<LayerView>
    recommends
        layers.len() >= 2,
{
    layers.drop_last().drop_last().push(layers[layers.len() - 2].merge(layers.last()))
}

/// Merging the top layer of a consistent stack into the one below it
/// changes no visible value.
pub proof fn lemma_commit_keeps_visible(
    base: spec_fn(CellKey) -> Felt,
    layers: Seq<LayerView>,
    key: CellKey,
)
    requires
        layers.len() >= 2,
        reads_consistent(base, layers),
    ensures
        visible(base, merged_stack(layers), key) == visible(base, layers, key),
{
    let n = layers.len() as int;
    let child = layers[n - 1];
    let parent = layers[n - 2];
    let below = layers.drop_last().drop_last();
    let merged = parent.merge(child);
    let after = merged_stack(layers);
    assert(after.last() == merged);
    assert(after.drop_last() =~= below);
    assert(layers.drop_last().last() == parent);
    assert(layers.take(n - 1) =~= layers.drop_last());
    assert(layers.take(n - 2) =~= below);
    let below_value = visible(base, below, key);
    let parent_value = visible(base, layers.drop_last(), key);
    assert(parent_value == match parent.known(key) {
        Some(v) => v,
        None => below_value,
    });
    assert(visible(base, layers, key) == match child.known(key) {
        Some(v) => v,
        None => parent_value,
    });
    assert(visible(base, after, key) == match merged.known(key) {
        Some(v) => v,
        None => below_value,
    });
    if !child.writes.contains_key(key) && child.initial_reads.contains_key(key) {
        // The child saw what was visible below it.
        assert(layers[n - 1].initial_reads.contains_key(key));
        assert(child.initial_reads[key] == parent_value);
    }
    if !parent.writes.contains_key(key) && parent.initial_reads.contains_key(key) {
        assert(layers[n - 2].initial_reads.contains_key(key));
    }
}

/// Merging the top layer of a consistent stack into the one below it
/// leaves a consistent stack.
pub proof fn lemma_commit_keeps_consistent(base: spec_fn(CellKey) -> Felt, layers: Seq<LayerView>)
    requires
        layers.len() >= 2,
        reads_consistent(base, layers),
    ensures
        reads_consistent(base, merged_stack(layers)),
{
    let n = layers.len() as int;
    let child = layers[n - 1];
    let parent = layers[n - 2];
    let below = layers.drop_last().drop_last();
    let after = merged_stack(layers);
    assert(layers.take(n - 1) =~= layers.drop_last());
    assert(layers.take(n - 2) =~= below);
    assert(layers.drop_last().last() == parent);
    assert(layers.drop_last().drop_last() =~= below);
    assert forall|i: int, k: CellKey|
        0 <= i < after.len() && #[trigger] after[i].initial_reads.contains_key(k) implies after[i].initial_reads[k]
        == visible(base, after.take(i), k) by {
        assert(after.take(i) =~= layers.take(i));
        if i < n - 2 {
            assert(layers[i].initial_reads.contains_key(k));
        } else {
            if parent.initial_reads.contains_key(k) {
                assert(layers[n - 2].initial_reads.contains_key(k));
            } else {
                assert(layers[n - 1].initial_reads.contains_key(k));
                assert(child.initial_reads[k] == visible(base, layers.drop_last(), k));
                assert(parent.known(k) is None);
            }
        }
    }
}

/// A layer that was opened, used and dropped leaves no trace: the stack
/// below it is what it was.
pub proof fn lemma_discard_restores(layers: Seq<LayerView>, top: LayerView)
    ensures
        layers.push(top).drop_last() == layers,
{
    assert(layers.push(top).drop_last() =~= layers);
}

} // verus!
