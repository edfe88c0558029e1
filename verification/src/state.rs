//! Chain state as a stack of layers over a base reader. Each layer holds
//! the values it first read and the values it wrote; reads fall through to
//! the layers below and at last to the base; a layer is merged into the one
//! below it or dropped.

use vstd::prelude::*;
use crate::felt::{ClassHash, CompiledClassHash, ContractAddress, Felt, StorageKey};
use crate::changes::StateChanges;
use crate::state_laws::{
    lemma_commit_keeps_consistent,
    lemma_commit_keeps_ledger,
    lemma_get_keeps_ledger,
    lemma_push_empty_keeps_ledger,
    lemma_set_updates_ledger,
    ledger,
    lemma_consistent_prefix,
    lemma_consistent_push_empty,
    lemma_consistent_update_top,
    lemma_take_contains,
    lemma_net_writes_stable,
    top_net_writes,
    lemma_get_keeps_consistent,
    lemma_set_keeps_consistent,
    merged_stack,
    stack_after_counting,
    stack_after_get,
    stack_after_set,
};
use crate::state_map::{CellKey, StateMap};

verus! {

/// Read access to the state below all layers. A cell that was never set
/// reads as zero: absence is no failure.
pub trait StateReader {
    /// Whether the reader is in a state in which it can be read.
    spec fn valid(&self) -> bool;

    /// The value of a cell.
    spec fn spec_read(&self, key: CellKey) -> Felt;

    /// The value of a cell.
    fn read(&self, key: &CellKey) -> (r: Felt)
        requires
            self.valid(),
        ensures
            r == self.spec_read(*key),
    ;
}

/// A base state held in memory.
#[derive(Debug)]
pub struct DictStateReader {
    cells: StateMap,
}

impl DictStateReader {
    /// The cells that were set.
    pub closed spec fn spec_cells(&self) -> Map<CellKey, Felt> {
        self.cells@
    }

    /// Whether the cells are listed without a repeated key.
    pub closed spec fn spec_valid(&self) -> bool {
        self.cells.valid()
    }

    /// A state in which every cell is zero.
    pub fn new() -> (r: DictStateReader)
        ensures
            r.spec_valid(),
            r.spec_cells() == Map::<CellKey, Felt>::empty(),
    {
        DictStateReader { cells: StateMap::new() }
    }

    /// Sets a cell.
    pub fn set(&mut self, key: CellKey, value: Felt)
        requires
            old(self).spec_valid(),
        ensures
            final(self).spec_valid(),
            final(self).spec_cells() == old(self).spec_cells().insert(key, value),
    {
        self.cells.insert(key, value);
    }
}

impl StateReader for DictStateReader {
    open spec fn valid(&self) -> bool {
        self.spec_valid()
    }

    open spec fn spec_read(&self, key: CellKey) -> Felt {
        if self.spec_cells().contains_key(key) {
            self.spec_cells()[key]
        } else {
            Felt { high: 0, low: 0 }
        }
    }

    fn read(&self, key: &CellKey) -> (r: Felt) {
        match self.cells.get(key) {
            Some(v) => v,
            None => Felt::zero(),
        }
    }
}

/// What one layer holds: the value of each cell as it was when the layer
/// first read it, and the value of each cell the layer wrote.
pub struct LayerView {
    pub initial_reads: Map<CellKey, Felt>,
    pub writes: Map<CellKey, Felt>,
}

impl LayerView {
    /// The layer that has read and written nothing.
    pub open spec fn empty() -> LayerView {
        LayerView { initial_reads: Map::empty(), writes: Map::empty() }
    }

    /// The value the layer itself knows for a cell: what it wrote, else
    /// what it first read.
    pub open spec fn known(self, key: CellKey) -> Option<Felt> {
        if self.writes.contains_key(key) {
            Some(self.writes[key])
        } else if self.initial_reads.contains_key(key) {
            Some(self.initial_reads[key])
        } else {
            None
        }
    }

    /// The layer that results when `child` is merged into `self`: the
    /// child's writes replace the parent's, and of the child's first reads
    /// only those stay that the parent had neither read nor written: what
    /// the parent read first wins.
    pub open spec fn merge(self, child: LayerView) -> LayerView {
        LayerView {
            initial_reads: Map::new(
                |k: CellKey|
                    self.initial_reads.contains_key(k) || (child.initial_reads.contains_key(k)
                        && !self.writes.contains_key(k)),
                |k: CellKey|
                    if self.initial_reads.contains_key(k) {
                        self.initial_reads[k]
                    } else {
                        child.initial_reads[k]
                    },
            ),
            writes: self.writes.union_prefer_right(child.writes),
        }
    }
}

/// The value of a cell as seen through the given layers, the last one on
/// top: the topmost layer that knows the cell decides, else the base.
pub open spec fn visible(base: spec_fn(CellKey) -> Felt, layers: Seq<LayerView>, key: CellKey) -> Felt
    decreases layers.len(),
{
    if layers.len() == 0 {
        base(key)
    } else {
        match layers.last().known(key) {
            Some(v) => v,
            None => visible(base, layers.drop_last(), key),
        }
    }
}

/// Every first read of every layer holds the value that was visible below
/// that layer.
pub open spec fn reads_consistent(base: spec_fn(CellKey) -> Felt, layers: Seq<LayerView>) -> bool {
    forall|i: int, k: CellKey|
        0 <= i < layers.len() && #[trigger] layers[i].initial_reads.contains_key(k)
            ==> layers[i].initial_reads[k] == visible(base, layers.take(i), k)
}

/// The net writes of a layer: of the cells it wrote, those whose value
/// differs from the one the layer saw first.
pub open spec fn net_writes(initial: spec_fn(CellKey) -> Felt, writes: Map<CellKey, Felt>) -> Map<
    CellKey,
    Felt,
> {
    Map::new(|k: CellKey| writes.contains_key(k) && writes[k] != initial(k), |k: CellKey| writes[k])
}

struct Layer {
    initial_reads: StateMap,
    writes: StateMap,
}

impl Layer {
    spec fn view(&self) -> LayerView {
        LayerView { initial_reads: self.initial_reads@, writes: self.writes@ }
    }

    spec fn valid(&self) -> bool {
        self.initial_reads.valid() && self.writes.valid()
    }

    fn known(&self, key: &CellKey) -> (r: Option<Felt>)
        requires
            self.valid(),
        ensures
            r == self@.known(*key),
    {
        match self.writes.get(key) {
            Some(v) => Some(v),
            None => self.initial_reads.get(key),
        }
    }
}

/// Why a layer could not be merged or dropped.
#[derive(Clone, Copy, Debug, PartialEq, Eq, Structural)]
pub enum StateError {
    /// The handle does not name the topmost layer, or names the bottom one.
    NotTopLayer,
    /// A nonce is already the largest word.
    NonceOverflow,
}

/// Names a layer: its position in the stack, the bottom layer being zero.
#[derive(Clone, Copy, Debug, PartialEq, Eq, Structural)]
pub struct LayerHandle {
    pub depth: usize,
}

/// A saved copy of one layer.
pub(crate) struct LayerSnapshot {
    layer: Layer,
}

impl LayerSnapshot {
    /// What the saved layer holds.
    pub closed spec fn view(&self) -> LayerView {
        self.layer@
    }

    pub closed spec fn valid(&self) -> bool {
        self.layer.valid()
    }
}

/// A stack of layers over a base reader.
pub struct LayeredState<R: StateReader> {
    base: R,
    layers: Vec<Layer>,
}

impl<R: StateReader> LayeredState<R> {
    /// The base reader.
    pub closed spec fn spec_base(&self) -> R {
        self.base
    }

    /// The layers, bottom first.
    pub closed spec fn spec_layers(&self) -> Seq<LayerView> {
        Seq::new(self.layers@.len(), |i: int| self.layers@[i]@)
    }

    /// The base is readable, there is a bottom layer, and every layer's
    /// maps are valid.
    pub closed spec fn valid(&self) -> bool {
        &&& self.maps_valid()
        &&& self.layers@.len() >= 1
    }

    spec fn maps_valid(&self) -> bool {
        &&& self.base.valid()
        &&& forall|i: int| 0 <= i < self.layers@.len() ==> #[trigger] self.layers@[i].valid()
    }

    /// In a valid state there is a bottom layer.
    pub proof fn lemma_valid_has_layer(&self)
        requires
            self.valid(),
        ensures
            self.spec_layers().len() >= 1,
            self.spec_base().valid(),
    {
    }

    /// The base as a function from cells to values.
    pub open spec fn spec_base_fn(&self) -> spec_fn(CellKey) -> Felt {
        |k: CellKey| self.spec_base().spec_read(k)
    }

    /// The value of a cell as seen from the top of the stack.
    pub open spec fn spec_get(&self, key: CellKey) -> Felt {
        visible(self.spec_base_fn(), self.spec_layers(), key)
    }

    /// Every cell with the value seen from the top of the stack.
    pub open spec fn spec_ledger(&self) -> Map<CellKey, Felt> {
        ledger(self.spec_base_fn(), self.spec_layers())
    }

    /// The net writes of the topmost layer.
    pub open spec fn spec_net_writes(&self) -> Map<CellKey, Felt> {
        top_net_writes(self.spec_base_fn(), self.spec_layers())
    }

    /// Every first read holds the value that was visible below its layer.
    pub open spec fn consistent(&self) -> bool {
        reads_consistent(self.spec_base_fn(), self.spec_layers())
    }

    /// The topmost layer.
    pub open spec fn spec_top(&self) -> LayerView {
        self.spec_layers().last()
    }

    /// The number of layers.
    pub open spec fn spec_depth(&self) -> nat {
        self.spec_layers().len()
    }

    /// A state with one empty layer over `base`.
    pub fn new(base: R) -> (r: LayeredState<R>)
        requires
            base.valid(),
        ensures
            r.valid(),
            r.consistent(),
            r.spec_base() == base,
            r.spec_layers() == seq![LayerView::empty()],
    {
        let mut layers: Vec<Layer> = Vec::new();
        layers.push(Layer { initial_reads: StateMap::new(), writes: StateMap::new() });
        let r = LayeredState { base, layers };
        assert(r.spec_layers() =~= seq![LayerView::empty()]);
        r
    }

    /// The number of layers.
    pub fn depth(&self) -> (r: usize)
        requires
            self.valid(),
        ensures
            r == self.spec_depth(),
            r >= 1,
    {
        self.layers.len()
    }

    /// The handle of the topmost layer.
    pub fn top_handle(&self) -> (r: LayerHandle)
        requires
            self.valid(),
        ensures
            r.depth == self.spec_depth() - 1,
    {
        LayerHandle { depth: self.layers.len() - 1 }
    }

    fn read_through(&self, upto: usize, key: &CellKey) -> (r: Felt)
        requires
            self.maps_valid(),
            upto <= self.spec_layers().len(),
        ensures
            r == visible(self.spec_base_fn(), self.spec_layers().take(upto as int), *key),
    {
        let ghost base = self.spec_base_fn();
        let ghost all = self.spec_layers().take(upto as int);
        let mut i: usize = upto;
        while i > 0
            invariant
                self.maps_valid(),
                i <= upto <= self.layers@.len(),
                base == self.spec_base_fn(),
                all == self.spec_layers().take(upto as int),
                visible(base, all, *key) == visible(base, self.spec_layers().take(i as int), *key),
            decreases i,
        {
            i -= 1;
            let ghost upper = self.spec_layers().take(i + 1);
            proof {
                assert(upper.last() == self.layers@[i as int]@);
                assert(upper.drop_last() =~= self.spec_layers().take(i as int));
            }
            match self.layers[i].known(key) {
                Some(v) => {
                    return v;
                },
                None => {},
            }
        }
        proof {
            assert(self.spec_layers().take(0).len() == 0);
        }
        self.base.read(key)
    }

    /// Reads a cell. The value comes from the topmost layer that knows the
    /// cell, else from the base. Where the top layer did not know the cell,
    /// it now holds the value as its first read of it; a first read, once
    /// recorded, is never replaced.
    pub fn get(&mut self, key: CellKey) -> (r: Felt)
        requires
            old(self).valid(),
        ensures
            final(self).valid(),
            r == old(self).spec_get(key),
            final(self).spec_base() == old(self).spec_base(),
            final(self).spec_layers() == stack_after_get(
                old(self).spec_base_fn(),
                old(self).spec_layers(),
                key,
            ),
            old(self).consistent() ==> final(self).consistent(),
            final(self).spec_ledger() == old(self).spec_ledger(),
            final(self).spec_layers().len() == old(self).spec_layers().len(),
            final(self).spec_layers().drop_last() == old(self).spec_layers().drop_last(),
            final(self).spec_net_writes() == old(self).spec_net_writes(),
    {
        let n = self.layers.len();
        proof {
            assert(self.spec_layers().take(n as int) =~= self.spec_layers());
            lemma_get_keeps_ledger(self.spec_base_fn(), self.spec_layers(), key);
            let layers = self.spec_layers();
            let after = stack_after_get(self.spec_base_fn(), layers, key);
            assert(after.drop_last() =~= layers.drop_last());
            if layers.last().known(key) is None {
                assert(visible(self.spec_base_fn(), layers, key) == visible(
                    self.spec_base_fn(),
                    layers.drop_last(),
                    key,
                ));
                assert forall|k: CellKey| #[trigger]
                    after.last().initial_reads.contains_key(k)
                        && !layers.last().initial_reads.contains_key(k) implies after.last().initial_reads[k]
                    == visible(self.spec_base_fn(), layers.drop_last(), k) by {
                    assert(k == key);
                }
            }
            lemma_net_writes_stable(self.spec_base_fn(), layers, after);
            if self.consistent() {
                lemma_get_keeps_consistent(self.spec_base_fn(), self.spec_layers(), key);
            }
        }
        let value = self.read_through(n, &key);
        let top = n - 1;
        let ghost before = self.spec_layers();
        match self.layers[top].known(&key) {
            Some(_) => {},
            None => {
                let ghost old_layers = self.layers@;
                assert(old_layers[top as int].valid());
                let mut layer = self.layers.pop().unwrap();
                layer.initial_reads.insert(key, value);
                self.layers.push(layer);
                proof {
                    assert forall|i: int| 0 <= i < self.layers@.len() implies #[trigger]
                        self.layers@[i].valid() by {
                        if i < top {
                            assert(self.layers@[i] == old_layers[i]);
                        }
                    }
                    assert(self.spec_layers() =~= before.update(
                        before.len() - 1,
                        LayerView {
                            initial_reads: before.last().initial_reads.insert(key, value),
                            writes: before.last().writes,
                        },
                    ));
                }
            },
        }
        value
    }

    /// Writes a cell in the topmost layer; no other layer changes.
    pub fn set(&mut self, key: CellKey, value: Felt)
        requires
            old(self).valid(),
        ensures
            final(self).valid(),
            final(self).spec_base() == old(self).spec_base(),
            final(self).spec_layers() == stack_after_set(old(self).spec_layers(), key, value),
            old(self).consistent() ==> final(self).consistent(),
            final(self).spec_ledger() == old(self).spec_ledger().insert(key, value),
            final(self).spec_layers().len() == old(self).spec_layers().len(),
            final(self).spec_layers().drop_last() == old(self).spec_layers().drop_last(),
    {
        let ghost before = self.spec_layers();
        proof {
            lemma_set_updates_ledger(self.spec_base_fn(), self.spec_layers(), key, value);
            if self.consistent() {
                lemma_set_keeps_consistent(self.spec_base_fn(), self.spec_layers(), key, value);
            }
        }
        let ghost old_layers = self.layers@;
        assert(old_layers[old_layers.len() - 1].valid());
        let mut layer = self.layers.pop().unwrap();
        layer.writes.insert(key, value);
        self.layers.push(layer);
        proof {
            assert forall|i: int| 0 <= i < self.layers@.len() implies #[trigger]
                self.layers@[i].valid() by {
                if i < old_layers.len() - 1 {
                    assert(self.layers@[i] == old_layers[i]);
                }
            }
            assert(self.spec_layers() =~= before.update(
                before.len() - 1,
                LayerView {
                    initial_reads: before.last().initial_reads,
                    writes: before.last().writes.insert(key, value),
                },
            ));
        }
    }

    /// Opens a new, empty layer on top and returns its handle.
    pub fn create_transactional(&mut self) -> (r: LayerHandle)
        requires
            old(self).valid(),
            old(self).spec_depth() < usize::MAX,
        ensures
            final(self).valid(),
            final(self).spec_base() == old(self).spec_base(),
            final(self).spec_layers() == old(self).spec_layers().push(LayerView::empty()),
            r.depth == old(self).spec_depth(),
            old(self).consistent() ==> final(self).consistent(),
            final(self).spec_ledger() == old(self).spec_ledger(),
    {
        let ghost before = self.spec_layers();
        proof {
            lemma_push_empty_keeps_ledger(self.spec_base_fn(), self.spec_layers());
            if self.consistent() {
                lemma_consistent_push_empty(self.spec_base_fn(), self.spec_layers());
            }
        }
        let depth = self.layers.len();
        let ghost old_layers = self.layers@;
        self.layers.push(Layer { initial_reads: StateMap::new(), writes: StateMap::new() });
        proof {
            assert forall|i: int| 0 <= i < self.layers@.len() implies #[trigger]
                self.layers@[i].valid() by {
                if i < old_layers.len() {
                    assert(self.layers@[i] == old_layers[i]);
                }
            }
            assert(self.spec_layers() =~= before.push(LayerView::empty()));
        }
        LayerHandle { depth }
    }

    /// Whether the handle names the topmost layer, and that is not the
    /// bottom one.
    pub open spec fn spec_is_open_top(&self, handle: LayerHandle) -> bool {
        handle.depth >= 1 && handle.depth + 1 == self.spec_depth()
    }

    /// Drops the topmost layer with all it read and wrote; the layers below
    /// are untouched. Fails, and changes nothing, unless the handle names
    /// the topmost layer above the bottom one.
    pub fn discard(&mut self, handle: LayerHandle) -> (r: Result<(), StateError>)
        requires
            old(self).valid(),
        ensures
            final(self).valid(),
            final(self).spec_base() == old(self).spec_base(),
            r is Ok <==> old(self).spec_is_open_top(handle),
            r is Ok ==> final(self).spec_layers() == old(self).spec_layers().drop_last(),
            r is Err ==> r == Err::<(), StateError>(StateError::NotTopLayer),
            r is Err ==> final(self).spec_layers() == old(self).spec_layers(),
            old(self).consistent() ==> final(self).consistent(),
            r is Ok ==> final(self).spec_ledger() == ledger(
                old(self).spec_base_fn(),
                old(self).spec_layers().drop_last(),
            ),
            r is Err ==> final(self).spec_ledger() == old(self).spec_ledger(),
    {
        if handle.depth == 0 || handle.depth != self.layers.len() - 1 {
            return Err(StateError::NotTopLayer);
        }
        let ghost before = self.spec_layers();
        proof {
            if self.consistent() {
                lemma_consistent_prefix(self.spec_base_fn(), before, before.len() - 1);
                assert(before.take(before.len() - 1) =~= before.drop_last());
            }
        }
        let ghost old_layers = self.layers@;
        let _ = self.layers.pop();
        proof {
            assert forall|i: int| 0 <= i < self.layers@.len() implies #[trigger]
                self.layers@[i].valid() by {
                assert(self.layers@[i] == old_layers[i]);
            }
            assert(self.spec_layers() =~= before.drop_last());
        }
        Ok(())
    }

    /// Merges the topmost layer into the one below it: its writes replace
    /// the parent's, and its first reads are kept for the cells that the
    /// parent had neither read nor written. Fails, and changes nothing,
    /// unless the handle names the topmost layer above the bottom one.
    pub fn commit(&mut self, handle: LayerHandle) -> (r: Result<(), StateError>)
        requires
            old(self).valid(),
        ensures
            final(self).valid(),
            final(self).spec_base() == old(self).spec_base(),
            r is Ok <==> old(self).spec_is_open_top(handle),
            r is Ok ==> final(self).spec_layers() == merged_stack(old(self).spec_layers()),
            r is Err ==> r == Err::<(), StateError>(StateError::NotTopLayer),
            r is Err ==> final(self).spec_layers() == old(self).spec_layers(),
            old(self).consistent() ==> final(self).consistent(),
            old(self).consistent() ==> final(self).spec_ledger() == old(self).spec_ledger(),
    {
        if handle.depth == 0 || handle.depth != self.layers.len() - 1 {
            return Err(StateError::NotTopLayer);
        }
        let ghost before = self.spec_layers();
        proof {
            if self.consistent() {
                lemma_commit_keeps_consistent(self.spec_base_fn(), before);
                lemma_commit_keeps_ledger(self.spec_base_fn(), before);
            }
        }
        let ghost old_layers = self.layers@;
        assert(old_layers[old_layers.len() - 1].valid());
        assert(old_layers[old_layers.len() - 2].valid());
        let child = self.layers.pop().unwrap();
        let mut parent = self.layers.pop().unwrap();
        let ghost parent_view = parent@;
        let ghost child_view = child@;
        let n_reads = child.initial_reads.len();
        let mut j: usize = 0;
        while j < n_reads
            invariant
                j <= n_reads,
                n_reads == child.initial_reads.spec_keys().len(),
                child.valid(),
                child@ == child_view,
                parent.valid(),
                parent.writes@ == parent_view.writes,
                parent.initial_reads@ =~= Map::new(
                    |k: CellKey|
                        parent_view.initial_reads.contains_key(k) || (
                        child.initial_reads.spec_keys().take(j as int).contains(k)
                            && !parent_view.writes.contains_key(k)),
                    |k: CellKey|
                        if parent_view.initial_reads.contains_key(k) {
                            parent_view.initial_reads[k]
                        } else {
                            child_view.initial_reads[k]
                        },
                ),
            decreases n_reads - j,
        {
            let k = child.initial_reads.key_at(j);
            let v = child.initial_reads.value_at(j);
            let ghost keys = child.initial_reads.spec_keys();
            proof {
                assert(keys.take(j + 1) =~= keys.take(j as int).push(k));
                assert forall|x: CellKey| keys.take(j + 1).contains(x) <==> (keys.take(
                    j as int,
                ).contains(x) || x == k) by {
                    if keys.take(j as int).contains(x) {
                        let a = keys.take(j as int).index_of(x);
                        assert(keys.take(j + 1)[a] == x);
                    }
                    if x == k {
                        assert(keys.take(j + 1)[j as int] == x);
                    }
                    if keys.take(j + 1).contains(x) {
                        let a = keys.take(j + 1).index_of(x);
                        if a < j {
                            assert(keys.take(j as int)[a] == x);
                        }
                    }
                }
            }
            if !parent.writes.contains_key(&k) && !parent.initial_reads.contains_key(&k) {
                parent.initial_reads.insert(k, v);
            }
            j += 1;
        }
        let n_writes = child.writes.len();
        let ghost merged_reads = parent.initial_reads@;
        proof {
            let keys = child.initial_reads.spec_keys();
            assert(keys.take(n_reads as int) =~= keys);
            child.initial_reads.lemma_view();
            assert(merged_reads =~= parent_view.merge(child_view).initial_reads);
        }
        let mut j: usize = 0;
        while j < n_writes
            invariant
                j <= n_writes,
                n_writes == child.writes.spec_keys().len(),
                child.valid(),
                child@ == child_view,
                parent.valid(),
                parent.initial_reads@ == merged_reads,
                parent.writes@ =~= Map::new(
                    |k: CellKey|
                        parent_view.writes.contains_key(k) || child.writes.spec_keys().take(
                            j as int,
                        ).contains(k),
                    |k: CellKey|
                        if child.writes.spec_keys().take(j as int).contains(k) {
                            child_view.writes[k]
                        } else {
                            parent_view.writes[k]
                        },
                ),
            decreases n_writes - j,
        {
            let k = child.writes.key_at(j);
            let v = child.writes.value_at(j);
            let ghost keys = child.writes.spec_keys();
            proof {
                assert(keys.take(j + 1) =~= keys.take(j as int).push(k));
                assert forall|x: CellKey| keys.take(j + 1).contains(x) <==> (keys.take(
                    j as int,
                ).contains(x) || x == k) by {
                    if keys.take(j as int).contains(x) {
                        let a = keys.take(j as int).index_of(x);
                        assert(keys.take(j + 1)[a] == x);
                    }
                    if x == k {
                        assert(keys.take(j + 1)[j as int] == x);
                    }
                    if keys.take(j + 1).contains(x) {
                        let a = keys.take(j + 1).index_of(x);
                        if a < j {
                            assert(keys.take(j as int)[a] == x);
                        }
                    }
                }
            }
            let ghost writes_before = parent.writes@;
            parent.writes.insert(k, v);
            proof {
                child.writes.lemma_view();
                assert(v == child_view.writes[k]);
                let target = Map::new(
                    |x: CellKey|
                        parent_view.writes.contains_key(x) || keys.take(j + 1).contains(x),
                    |x: CellKey|
                        if keys.take(j + 1).contains(x) {
                            child_view.writes[x]
                        } else {
                            parent_view.writes[x]
                        },
                );
                let source = Map::new(
                    |x: CellKey|
                        parent_view.writes.contains_key(x) || keys.take(j as int).contains(x),
                    |x: CellKey|
                        if keys.take(j as int).contains(x) {
                            child_view.writes[x]
                        } else {
                            parent_view.writes[x]
                        },
                );
                assert(writes_before == source);
                assert forall|x: CellKey|
                    target.dom().contains(x) == source.insert(k, v).dom().contains(x) by {
                    lemma_take_contains(keys, j as int, x);
                }
                assert forall|x: CellKey| #[trigger] target.dom().contains(x) implies target[x]
                    == source.insert(k, v)[x] by {
                    lemma_take_contains(keys, j as int, x);
                }
                assert(source.insert(k, v) =~= target);
                assert(parent.writes@ == target);
            }
            j += 1;
        }
        proof {
            let keys = child.writes.spec_keys();
            assert(keys.take(n_writes as int) =~= keys);
            child.writes.lemma_view();
            assert(parent.writes@ =~= parent_view.writes.union_prefer_right(child_view.writes));
            assert(parent@ == parent_view.merge(child_view));
        }
        self.layers.push(parent);
        proof {
            assert forall|i: int| 0 <= i < self.layers@.len() implies #[trigger]
                self.layers@[i].valid() by {
                if i < old_layers.len() - 2 {
                    assert(self.layers@[i] == old_layers[i]);
                }
            }
            assert(self.spec_layers() =~= before.drop_last().drop_last().push(
                before[before.len() - 2].merge(before.last()),
            ));
        }
        Ok(())
    }

    /// A copy of the layer right below the topmost one.
    pub(crate) fn save_parent(&self) -> (r: LayerSnapshot)
        requires
            self.valid(),
            self.spec_depth() >= 2,
        ensures
            r.valid(),
            r@ == self.spec_layers()[self.spec_layers().len() - 2],
    {
        let n = self.layers.len();
        assert(self.layers@[n - 2].valid());
        LayerSnapshot {
            layer: Layer {
                initial_reads: self.layers[n - 2].initial_reads.duplicate(),
                writes: self.layers[n - 2].writes.duplicate(),
            },
        }
    }

    /// Puts a saved layer in the place of the topmost one.
    pub(crate) fn restore_top(&mut self, snapshot: LayerSnapshot)
        requires
            old(self).valid(),
            snapshot.valid(),
        ensures
            final(self).valid(),
            final(self).spec_base() == old(self).spec_base(),
            final(self).spec_layers() == old(self).spec_layers().update(
                old(self).spec_layers().len() - 1,
                snapshot@,
            ),
    {
        let ghost before = self.spec_layers();
        let ghost old_layers = self.layers@;
        let _ = self.layers.pop();
        self.layers.push(snapshot.layer);
        proof {
            assert forall|i: int| 0 <= i < self.layers@.len() implies #[trigger]
                self.layers@[i].valid() by {
                if i < old_layers.len() - 1 {
                    assert(self.layers@[i] == old_layers[i]);
                }
            }
            assert(self.spec_layers() =~= before.update(before.len() - 1, snapshot@));
        }
    }

    /// The value of a cell as the topmost layer first saw it: its first read
    /// of the cell, else what is visible below the layer.
    pub open spec fn spec_initial_value(&self, key: CellKey) -> Felt {
        if self.spec_top().initial_reads.contains_key(key) {
            self.spec_top().initial_reads[key]
        } else {
            visible(self.spec_base_fn(), self.spec_layers().drop_last(), key)
        }
    }

    /// The net writes of the topmost layer: of the cells it wrote, those
    /// whose value differs from the one the layer saw first. For a cell that
    /// the layer wrote without reading it, the value below the layer is
    /// looked up and recorded as the layer's first read.
    pub fn get_actual_state_changes(&mut self) -> (r: StateChanges)
        requires
            old(self).valid(),
        ensures
            final(self).valid(),
            final(self).spec_base() == old(self).spec_base(),
            r.valid(),
            r@ == net_writes(
                |k: CellKey| old(self).spec_initial_value(k),
                old(self).spec_top().writes,
            ),
            r@ == old(self).spec_net_writes(),
            final(self).spec_layers() == old(self).spec_layers().update(
                old(self).spec_layers().len() - 1,
                LayerView {
                    initial_reads: Map::new(
                        |k: CellKey|
                            old(self).spec_top().initial_reads.contains_key(k) || old(
                                self,
                            ).spec_top().writes.contains_key(k),
                        |k: CellKey| old(self).spec_initial_value(k),
                    ),
                    writes: old(self).spec_top().writes,
                },
            ),
            final(self).spec_layers() == stack_after_counting(
                old(self).spec_base_fn(),
                old(self).spec_layers(),
            ),
            old(self).consistent() ==> final(self).consistent(),
            final(self).spec_ledger() == old(self).spec_ledger(),
            final(self).spec_layers().len() == old(self).spec_layers().len(),
            final(self).spec_layers().drop_last() == old(self).spec_layers().drop_last(),
            final(self).spec_net_writes() == old(self).spec_net_writes(),
    {
        let ghost before = self.spec_layers();
        let ghost base = self.spec_base_fn();
        let ghost old_layers = self.layers@;
        let ghost was_consistent = self.consistent();
        let ghost initial = |k: CellKey| self.spec_initial_value(k);
        let n = self.layers.len();
        assert(old_layers[n - 1].valid());
        let mut layer = self.layers.pop().unwrap();
        let ghost top = layer@;
        let ghost below = before.drop_last();
        proof {
            assert(self.spec_layers() =~= below);
            assert(self.spec_layers().take((n - 1) as int) =~= below);
            assert forall|i: int| 0 <= i < self.layers@.len() implies #[trigger]
                self.layers@[i].valid() by {
                assert(self.layers@[i] == old_layers[i]);
            }
        }
        let n_writes = layer.writes.len();
        let mut j: usize = 0;
        while j < n_writes
            invariant
                j <= n_writes,
                n_writes == layer.writes.spec_keys().len(),
                layer.valid(),
                layer.writes@ == top.writes,
                self.maps_valid(),
                self.layers@.len() == n - 1,
                self.spec_base_fn() == base,
                self.spec_layers() == below,
                forall|k: CellKey| #[trigger]
                    initial(k) == if top.initial_reads.contains_key(k) {
                        top.initial_reads[k]
                    } else {
                        visible(base, below, k)
                    },
                layer.initial_reads@ =~= Map::new(
                    |k: CellKey|
                        top.initial_reads.contains_key(k) || layer.writes.spec_keys().take(
                            j as int,
                        ).contains(k),
                    |k: CellKey| initial(k),
                ),
            decreases n_writes - j,
        {
            let k = layer.writes.key_at(j);
            let ghost keys = layer.writes.spec_keys();
            let ghost reads_before = layer.initial_reads@;
            proof {
                assert forall|x: CellKey|
                    keys.take(j + 1).contains(x) <==> (keys.take(j as int).contains(x) || x
                        == k) by {
                    lemma_take_contains(keys, j as int, x);
                }
                assert(self.spec_layers().take((n - 1) as int) =~= below);
            }
            if !layer.initial_reads.contains_key(&k) {
                let v0 = self.read_through(n - 1, &k);
                layer.initial_reads.insert(k, v0);
                proof {
                    assert(!top.initial_reads.contains_key(k));
                    assert(v0 == initial(k));
                }
            }
            proof {
                let target = Map::new(
                    |x: CellKey|
                        top.initial_reads.contains_key(x) || keys.take(j + 1).contains(x),
                    |x: CellKey| initial(x),
                );
                assert forall|x: CellKey| #[trigger]
                    target.contains_key(x) == layer.initial_reads@.contains_key(x) by {
                    lemma_take_contains(keys, j as int, x);
                }
                assert forall|x: CellKey| #[trigger] target.contains_key(x) implies target[x]
                    == layer.initial_reads@[x] by {
                    lemma_take_contains(keys, j as int, x);
                    if x != k {
                        assert(reads_before.contains_key(x));
                    } else if reads_before.contains_key(x) {
                        assert(reads_before[x] == initial(x));
                    }
                }
                assert(layer.initial_reads@ =~= target);
            }
            j += 1;
        }
        proof {
            let keys = layer.writes.spec_keys();
            assert(keys.take(n_writes as int) =~= keys);
            layer.writes.lemma_view();
            assert forall|x: CellKey| keys.contains(x) <==> top.writes.contains_key(x) by {}
        }
        let mut changes = StateMap::new();
        let mut j: usize = 0;
        while j < n_writes
            invariant
                j <= n_writes,
                n_writes == layer.writes.spec_keys().len(),
                layer.valid(),
                layer.writes@ == top.writes,
                changes.valid(),
                forall|x: CellKey| #[trigger]
                    layer.initial_reads@.contains_key(x) <==> (top.initial_reads.contains_key(x)
                        || top.writes.contains_key(x)),
                forall|x: CellKey| #[trigger]
                    layer.initial_reads@.contains_key(x) ==> layer.initial_reads@[x] == initial(x),
                changes@ =~= Map::new(
                    |x: CellKey|
                        layer.writes.spec_keys().take(j as int).contains(x) && top.writes[x]
                            != initial(x),
                    |x: CellKey| top.writes[x],
                ),
            decreases n_writes - j,
        {
            let k = layer.writes.key_at(j);
            let v = layer.writes.value_at(j);
            let ghost keys = layer.writes.spec_keys();
            let ghost changes_before = changes@;
            proof {
                assert forall|x: CellKey|
                    keys.take(j + 1).contains(x) <==> (keys.take(j as int).contains(x) || x
                        == k) by {
                    lemma_take_contains(keys, j as int, x);
                }
                layer.writes.lemma_view();
                assert(top.writes.contains_key(k));
                assert(layer.initial_reads@.contains_key(k));
                assert(!keys.take(j as int).contains(k)) by {
                    if keys.take(j as int).contains(k) {
                        let a = keys.take(j as int).index_of(k);
                        assert(keys[a] == k && keys[j as int] == k);
                    }
                }
            }
            let first = layer.initial_reads.get(&k);
            let differs = match first {
                Some(v0) => v != v0,
                None => true,
            };
            if differs {
                changes.insert(k, v);
            }
            proof {
                let target = Map::new(
                    |x: CellKey| keys.take(j + 1).contains(x) && top.writes[x] != initial(x),
                    |x: CellKey| top.writes[x],
                );
                assert forall|x: CellKey| #[trigger]
                    target.contains_key(x) == changes@.contains_key(x) by {
                    lemma_take_contains(keys, j as int, x);
                }
                assert forall|x: CellKey| #[trigger] target.contains_key(x) implies target[x]
                    == changes@[x] by {
                    lemma_take_contains(keys, j as int, x);
                    if x != k {
                        assert(changes_before.contains_key(x));
                    }
                }
                assert(changes@ =~= target);
            }
            j += 1;
        }
        proof {
            let keys = layer.writes.spec_keys();
            assert(keys.take(n_writes as int) =~= keys);
            layer.writes.lemma_view();
            assert forall|x: CellKey| keys.contains(x) <==> top.writes.contains_key(x) by {}
            assert(changes@ =~= net_writes(initial, top.writes));
        }
        let ghost new_top = layer@;
        self.layers.push(layer);
        proof {
            assert forall|i: int| 0 <= i < self.layers@.len() implies #[trigger]
                self.layers@[i].valid() by {
                if i < n - 1 {
                    assert(self.layers@[i] == old_layers[i]);
                }
            }
            let target_top = LayerView {
                initial_reads: Map::new(
                    |k: CellKey|
                        top.initial_reads.contains_key(k) || top.writes.contains_key(k),
                    |k: CellKey| initial(k),
                ),
                writes: top.writes,
            };
            assert(new_top.initial_reads =~= target_top.initial_reads);
            assert(target_top.initial_reads =~= Map::new(
                |k: CellKey|
                    old(self).spec_top().initial_reads.contains_key(k) || old(
                        self,
                    ).spec_top().writes.contains_key(k),
                |k: CellKey| old(self).spec_initial_value(k),
            ));
            assert(self.spec_layers() =~= before.update(before.len() - 1, target_top));
            assert(target_top.initial_reads =~= stack_after_counting(
                base,
                before,
            ).last().initial_reads);
            assert(self.spec_layers() =~= stack_after_counting(base, before));
            assert(before.take(before.len() - 1) =~= below);
            if was_consistent {
                assert forall|k: CellKey| #[trigger]
                    target_top.initial_reads.contains_key(k) implies target_top.initial_reads[k]
                    == visible(base, before.drop_last(), k) by {
                    if top.initial_reads.contains_key(k) {
                        assert(before[before.len() - 1].initial_reads.contains_key(k));
                    }
                }
                lemma_consistent_update_top(base, before, target_top);
            }
            assert forall|k: CellKey|
                visible(base, before.update(before.len() - 1, target_top), k) == visible(
                    base,
                    before,
                    k,
                ) by {
                assert(before.update(before.len() - 1, target_top).drop_last() =~= below);
            }
            assert(ledger(base, before.update(before.len() - 1, target_top)) =~= ledger(
                base,
                before,
            ));
            assert(before.update(before.len() - 1, target_top).drop_last() =~= before.drop_last());
            lemma_net_writes_stable(base, before, before.update(before.len() - 1, target_top));
        }
        StateChanges::from_map(changes)
    }

    /// What the topmost layer holds as its first read of a cell, if it has
    /// read it.
    pub fn top_initial_read(&self, key: &CellKey) -> (r: Option<Felt>)
        requires
            self.valid(),
        ensures
            r == if self.spec_top().initial_reads.contains_key(*key) {
                Some(self.spec_top().initial_reads[*key])
            } else {
                None
            },
    {
        let n = self.layers.len();
        assert(self.layers@[n - 1].valid());
        self.layers[n - 1].initial_reads.get(key)
    }

    /// What the topmost layer wrote to a cell, if it wrote to it.
    pub fn top_write(&self, key: &CellKey) -> (r: Option<Felt>)
        requires
            self.valid(),
        ensures
            r == if self.spec_top().writes.contains_key(*key) {
                Some(self.spec_top().writes[*key])
            } else {
                None
            },
    {
        let n = self.layers.len();
        assert(self.layers@[n - 1].valid());
        self.layers[n - 1].writes.get(key)
    }

    /// Reads a storage cell of a contract.
    pub fn get_storage_at(&mut self, contract_address: ContractAddress, key: StorageKey) -> (r: Felt)
        requires
            old(self).valid(),
        ensures
            final(self).valid(),
            r == old(self).spec_get(CellKey::Storage(contract_address, key)),
            final(self).spec_base() == old(self).spec_base(),
            final(self).spec_layers() == stack_after_get(
                old(self).spec_base_fn(),
                old(self).spec_layers(),
                CellKey::Storage(contract_address, key),
            ),
            old(self).consistent() ==> final(self).consistent(),
            final(self).spec_ledger() == old(self).spec_ledger(),
            final(self).spec_layers().len() == old(self).spec_layers().len(),
            final(self).spec_layers().drop_last() == old(self).spec_layers().drop_last(),
            final(self).spec_net_writes() == old(self).spec_net_writes(),
    {
        self.get(CellKey::Storage(contract_address, key))
    }

    /// Writes a storage cell of a contract.
    pub fn set_storage_at(&mut self, contract_address: ContractAddress, key: StorageKey, value: Felt)
        requires
            old(self).valid(),
        ensures
            final(self).valid(),
            final(self).spec_base() == old(self).spec_base(),
            final(self).spec_layers() == stack_after_set(
                old(self).spec_layers(),
                CellKey::Storage(contract_address, key),
                value,
            ),
            old(self).consistent() ==> final(self).consistent(),
            final(self).spec_layers().len() == old(self).spec_layers().len(),
            final(self).spec_layers().drop_last() == old(self).spec_layers().drop_last(),
            final(self).spec_ledger() == old(self).spec_ledger().insert(
                CellKey::Storage(contract_address, key),
                value,
            ),
    {
        self.set(CellKey::Storage(contract_address, key), value)
    }

    /// Reads the nonce of a contract.
    pub fn get_nonce_at(&mut self, contract_address: ContractAddress) -> (r: Felt)
        requires
            old(self).valid(),
        ensures
            final(self).valid(),
            r == old(self).spec_get(CellKey::Nonce(contract_address)),
            final(self).spec_base() == old(self).spec_base(),
            final(self).spec_layers() == stack_after_get(
                old(self).spec_base_fn(),
                old(self).spec_layers(),
                CellKey::Nonce(contract_address),
            ),
            old(self).consistent() ==> final(self).consistent(),
            final(self).spec_ledger() == old(self).spec_ledger(),
            final(self).spec_layers().len() == old(self).spec_layers().len(),
            final(self).spec_layers().drop_last() == old(self).spec_layers().drop_last(),
            final(self).spec_net_writes() == old(self).spec_net_writes(),
    {
        self.get(CellKey::Nonce(contract_address))
    }

    /// Raises the nonce of a contract by one. Fails, having at most
    /// recorded a read, when the nonce is the largest word.
    pub fn increment_nonce(&mut self, contract_address: ContractAddress) -> (r: Result<
        (),
        StateError,
    >)
        requires
            old(self).valid(),
        ensures
            final(self).valid(),
            final(self).spec_base() == old(self).spec_base(),
            old(self).consistent() ==> final(self).consistent(),
            r is Ok <==> !(old(self).spec_get(CellKey::Nonce(contract_address)) == Felt {
                high: u128::MAX,
                low: u128::MAX,
            }),
            r is Err ==> r == Err::<(), StateError>(StateError::NonceOverflow),
            r is Err ==> final(self).spec_layers() == stack_after_get(
                old(self).spec_base_fn(),
                old(self).spec_layers(),
                CellKey::Nonce(contract_address),
            ),
            r is Ok ==> final(self).spec_get(CellKey::Nonce(contract_address)).value() == old(
                self,
            ).spec_get(CellKey::Nonce(contract_address)).value() + 1,
            r is Ok ==> final(self).spec_layers() == stack_after_set(
                stack_after_get(
                    old(self).spec_base_fn(),
                    old(self).spec_layers(),
                    CellKey::Nonce(contract_address),
                ),
                CellKey::Nonce(contract_address),
                old(self).spec_get(CellKey::Nonce(contract_address)).spec_checked_next()->Some_0,
            ),
            final(self).spec_layers().len() == old(self).spec_layers().len(),
            final(self).spec_layers().drop_last() == old(self).spec_layers().drop_last(),
            r is Err ==> final(self).spec_ledger() == old(self).spec_ledger(),
            r is Ok ==> final(self).spec_ledger() == old(self).spec_ledger().insert(
                CellKey::Nonce(contract_address),
                old(self).spec_ledger()[CellKey::Nonce(contract_address)].spec_checked_next()->Some_0,
            ),
            r is Ok ==> final(self).spec_top().writes == old(self).spec_top().writes.insert(
                CellKey::Nonce(contract_address),
                old(self).spec_ledger()[CellKey::Nonce(contract_address)].spec_checked_next()->Some_0,
            ),
            r is Err ==> final(self).spec_top().writes == old(self).spec_top().writes,
    {
        let current = self.get(CellKey::Nonce(contract_address));
        match current.checked_next() {
            Some(next) => {
                self.set(CellKey::Nonce(contract_address), next);
                Ok(())
            },
            None => Err(StateError::NonceOverflow),
        }
    }

    /// Reads the class hash of the contract at an address; zero when none
    /// is deployed there.
    pub fn get_class_hash_at(&mut self, contract_address: ContractAddress) -> (r: ClassHash)
        requires
            old(self).valid(),
        ensures
            final(self).valid(),
            r == old(self).spec_get(CellKey::ClassHash(contract_address)),
            final(self).spec_base() == old(self).spec_base(),
            final(self).spec_layers() == stack_after_get(
                old(self).spec_base_fn(),
                old(self).spec_layers(),
                CellKey::ClassHash(contract_address),
            ),
            old(self).consistent() ==> final(self).consistent(),
            final(self).spec_ledger() == old(self).spec_ledger(),
            final(self).spec_layers().len() == old(self).spec_layers().len(),
            final(self).spec_layers().drop_last() == old(self).spec_layers().drop_last(),
            final(self).spec_net_writes() == old(self).spec_net_writes(),
    {
        self.get(CellKey::ClassHash(contract_address))
    }

    /// Sets the class hash of the contract at an address.
    pub fn set_class_hash_at(&mut self, contract_address: ContractAddress, class_hash: ClassHash)
        requires
            old(self).valid(),
        ensures
            final(self).valid(),
            final(self).spec_base() == old(self).spec_base(),
            final(self).spec_layers() == stack_after_set(
                old(self).spec_layers(),
                CellKey::ClassHash(contract_address),
                class_hash,
            ),
            old(self).consistent() ==> final(self).consistent(),
            final(self).spec_layers().len() == old(self).spec_layers().len(),
            final(self).spec_layers().drop_last() == old(self).spec_layers().drop_last(),
            final(self).spec_ledger() == old(self).spec_ledger().insert(
                CellKey::ClassHash(contract_address),
                class_hash,
            ),
    {
        self.set(CellKey::ClassHash(contract_address), class_hash)
    }

    /// Reads the compiled class hash that belongs to a class hash.
    pub fn get_compiled_class_hash(&mut self, class_hash: ClassHash) -> (r: CompiledClassHash)
        requires
            old(self).valid(),
        ensures
            final(self).valid(),
            r == old(self).spec_get(CellKey::CompiledClassHash(class_hash)),
            final(self).spec_base() == old(self).spec_base(),
            final(self).spec_layers() == stack_after_get(
                old(self).spec_base_fn(),
                old(self).spec_layers(),
                CellKey::CompiledClassHash(class_hash),
            ),
            old(self).consistent() ==> final(self).consistent(),
            final(self).spec_ledger() == old(self).spec_ledger(),
            final(self).spec_layers().len() == old(self).spec_layers().len(),
            final(self).spec_layers().drop_last() == old(self).spec_layers().drop_last(),
            final(self).spec_net_writes() == old(self).spec_net_writes(),
    {
        self.get(CellKey::CompiledClassHash(class_hash))
    }

    /// Sets the compiled class hash that belongs to a class hash.
    pub fn set_compiled_class_hash(&mut self, class_hash: ClassHash, compiled: CompiledClassHash)
        requires
            old(self).valid(),
        ensures
            final(self).valid(),
            final(self).spec_base() == old(self).spec_base(),
            final(self).spec_layers() == stack_after_set(
                old(self).spec_layers(),
                CellKey::CompiledClassHash(class_hash),
                compiled,
            ),
            old(self).consistent() ==> final(self).consistent(),
            final(self).spec_layers().len() == old(self).spec_layers().len(),
            final(self).spec_layers().drop_last() == old(self).spec_layers().drop_last(),
            final(self).spec_ledger() == old(self).spec_ledger().insert(
                CellKey::CompiledClassHash(class_hash),
                compiled,
            ),
    {
        self.set(CellKey::CompiledClassHash(class_hash), compiled)
    }

    /// Whether a class was declared.
    pub fn is_declared(&mut self, class_hash: ClassHash) -> (r: bool)
        requires
            old(self).valid(),
        ensures
            final(self).valid(),
            r == (old(self).spec_get(CellKey::Declared(class_hash)) != Felt { high: 0, low: 0 }),
            final(self).spec_base() == old(self).spec_base(),
            final(self).spec_layers() == stack_after_get(
                old(self).spec_base_fn(),
                old(self).spec_layers(),
                CellKey::Declared(class_hash),
            ),
            old(self).consistent() ==> final(self).consistent(),
            final(self).spec_ledger() == old(self).spec_ledger(),
            final(self).spec_layers().len() == old(self).spec_layers().len(),
            final(self).spec_layers().drop_last() == old(self).spec_layers().drop_last(),
            final(self).spec_net_writes() == old(self).spec_net_writes(),
    {
        !self.get(CellKey::Declared(class_hash)).is_zero()
    }

    /// Marks a class as declared.
    pub fn set_declared(&mut self, class_hash: ClassHash)
        requires
            old(self).valid(),
        ensures
            final(self).valid(),
            final(self).spec_base() == old(self).spec_base(),
            final(self).spec_layers() == stack_after_set(
                old(self).spec_layers(),
                CellKey::Declared(class_hash),
                Felt { high: 0, low: 1 },
            ),
            old(self).consistent() ==> final(self).consistent(),
            final(self).spec_layers().len() == old(self).spec_layers().len(),
            final(self).spec_layers().drop_last() == old(self).spec_layers().drop_last(),
            final(self).spec_ledger() == old(self).spec_ledger().insert(
                CellKey::Declared(class_hash),
                Felt { high: 0, low: 1 },
            ),
    {
        self.set(CellKey::Declared(class_hash), Felt::from_u128(1))
    }
}

} // verus!
