//! Where a subscriber stopped reading.

use std::collections::HashMap;
use vstd::prelude::*;

verus! {

/// The sequence number reached in each shard, by shard id.
#[derive(Debug, Clone)]
pub struct Checkpoint {
    /// Sequence numbers by shard id.
    pub shard_sequence_numbers: HashMap<String, String>,
}

} // verus!
