//! Where in a stream a subscriber starts to read.

use crate::types::checkpoint::Checkpoint;
use vstd::prelude::*;

verus! {

/// The position in a shard that an iterator is asked for.
#[derive(Debug, Clone, Copy, PartialEq, Eq, Structural)]
pub enum ShardIteratorType {
    /// Just behind the newest record.
    Latest,
    /// At the oldest record that the shard still holds.
    TrimHorizon,
}

/// Where a new stream starts to read.
#[derive(Debug, Clone)]
pub enum InitialIteratorType {
    /// Only what is written from now on.
    Latest,
    /// Everything that the stream still holds.
    TrimHorizon,
    /// At the sequence numbers of a checkpoint.
    AtCheckpoint(Checkpoint),
    /// Behind the sequence numbers of a checkpoint.
    AfterCheckpoint(Checkpoint),
}

impl InitialIteratorType {
    /// The one iterator type that opens every shard at this start. A checkpoint
    /// holds a position of its own for each shard, so it has none.
    pub open spec fn spec_shard_iterator_type(self) -> Option<ShardIteratorType> {
        match self {
            InitialIteratorType::Latest => Some(ShardIteratorType::Latest),
            InitialIteratorType::TrimHorizon => Some(ShardIteratorType::TrimHorizon),
            _ => None,
        }
    }

    /// The iterator type to open every shard with, if one type fits all shards.
    pub fn shard_iterator_type(&self) -> (iterator_type: Option<ShardIteratorType>)
        ensures
            iterator_type == self.spec_shard_iterator_type(),
    {
        match self {
            InitialIteratorType::Latest => Some(ShardIteratorType::Latest),
            InitialIteratorType::TrimHorizon => Some(ShardIteratorType::TrimHorizon),
            _ => None,
        }
    }
}

/// A stream that starts at the newest or at the oldest record opens every shard
/// there, and only one that starts at a checkpoint has no such position.
pub proof fn law_start_decides_the_position(start: InitialIteratorType)
    ensures
        start is Latest <==> start.spec_shard_iterator_type() == Some(ShardIteratorType::Latest),
        start is TrimHorizon <==> start.spec_shard_iterator_type() == Some(
            ShardIteratorType::TrimHorizon,
        ),
        start is AtCheckpoint || start is AfterCheckpoint
            <==> start.spec_shard_iterator_type() is None,
{
}

} // verus!
