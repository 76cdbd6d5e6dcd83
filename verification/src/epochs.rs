//! Epoch bookkeeping of the node's emission schedule: how DAG depths group into
//! emission epochs.
use vstd::prelude::*;

verus! {

/// Number of DAG depths per emission epoch.
pub const EPOCH_DEPTH: u64 = 100_000;

/// Total number of epochs across the 256-year emission timeline.
pub const TOTAL_EPOCHS: u64 = 800_000;

/// The emission epoch a DAG depth falls in.
pub fn epoch_at_depth(depth: u64) -> (epoch: u64)
    ensures
        epoch == depth / EPOCH_DEPTH,
        epoch * EPOCH_DEPTH <= depth < (epoch + 1) * EPOCH_DEPTH,
{
    depth / EPOCH_DEPTH
}

} // verus!
