//! Transaction execution and fee metering for a layer-two virtual machine
//! host.
//!
//! - `gas`, `resources`, `receipt`, `fee_checks`, `budget`: what execution
//!   counters cost in gas, what gas costs in fee, what a fee or resource
//!   bounds buy in steps, and the check of a charge against the bounds.
//! - `state_map`, `state`, `changes`: chain state as a stack of layers over
//!   a base reader, with first reads and writes per layer, and the net
//!   changes of a layer.
//! - `entry_point`: the running budget of one phase: steps, depth of calls,
//!   gas per call.
//! - `transaction`: the account transaction state machine. The caller runs
//!   the phases; the machine admits the transaction, says what to run next,
//!   takes what came of it, rolls back or keeps, and charges.
//! - `fee_transfer`: the fee transfer, at once or with the sequencer's share
//!   put off.
//! - `mempool`, `base_layer`, `cairo_compile`: what is computed at the edges
//!   towards the transaction pool, the base layer and the compilers.
//!
//! The modules whose names end in `_laws` hold what is proved of several
//! functions together.

pub mod base_layer;
pub mod budget;
pub mod cairo_compile;
pub mod changes;
pub mod context;
pub mod entry_point;
pub mod fee_checks;
pub mod fee_transfer;
pub mod fee_transfer_laws;
pub mod felt;
pub mod gas;
pub mod mempool;
pub mod receipt;
pub mod resources;
pub mod resources_laws;
pub mod fields;
pub mod state;
pub mod state_laws;
pub mod state_map;
pub mod text;
pub mod transaction;
pub mod transaction_laws;
