//! What is read from the base layer: the latest block that enough later
//! blocks confirm.

use vstd::prelude::*;
use crate::felt::Felt;

verus! {

/// A block by its hash and its number.
#[derive(Clone, Copy, Debug, PartialEq, Eq, Hash, Structural)]
pub struct BlockHashAndNumber {
    pub hash: Felt,
    pub number: u64,
}

/// The number of the latest block that `finality` later blocks confirm,
/// the latest block of all being `latest`; none when no block has that
/// many after it.
pub open spec fn spec_confirmed_block_number(latest: u64, finality: u64) -> Option<u64> {
    if latest >= finality {
        Some((latest - finality) as u64)
    } else {
        None
    }
}

/// The number of the latest block that `finality` later blocks confirm.
/// That no block meets the threshold is no failure: the answer is `None`.
pub fn confirmed_block_number(latest: u64, finality: u64) -> (r: Option<u64>)
    ensures
        r == spec_confirmed_block_number(latest, finality),
{
    latest.checked_sub(finality)
}

} // verus!
