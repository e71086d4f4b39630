//! How polling goes on, stated over mathematical values.

use crate::error::{Error, StreamResult};
use crate::stream::event::{ActionView, Event};
use crate::types::initial_interator_type::ShardIteratorType;
use crate::types::request::requests_for;
use crate::types::shard::Shard;
use std::time::Duration;
use vstd::prelude::*;

verus! {

/// What the polling half waits for.
pub enum PhaseView {
    /// To begin. The shards are to be opened at this position.
    Idle(ShardIteratorType),
    /// For the ARN of the stream.
    StreamArn(ShardIteratorType),
    /// For the first listing of the shards.
    InitialShards(ShardIteratorType),
    /// For the first shards to be opened.
    InitialIterators,
    /// For the consumer to be told that the stream is open.
    Initialized,
    /// For the records of a round.
    Records,
    /// For a new listing of the shards, with the shards to keep and the results
    /// of the round at hand.
    Shards {
        /// The shards that can be read again.
        kept: Seq<Shard>,
        /// The results of the round.
        results: Seq<StreamResult>,
    },
    /// For new shards to be opened, with the same at hand.
    Iterators {
        /// The shards that can be read again.
        kept: Seq<Shard>,
        /// The results of the round.
        results: Seq<StreamResult>,
    },
    /// For word on whether to close.
    CloseCheck {
        /// The results of the round.
        results: Seq<StreamResult>,
    },
    /// For a result to be sent.
    Sending {
        /// The results to send behind it.
        pending: Seq<StreamResult>,
    },
    /// For the pause between two rounds to end.
    Sleeping,
    /// For the error that ends polling to be sent.
    Reporting,
    /// For nothing.
    Stopped,
}

/// The state of the polling half.
pub struct ProducerView {
    /// The table.
    pub table_name: Seq<char>,
    /// The stream, once it is known.
    pub stream_arn: Seq<char>,
    /// The shards to read in the next round.
    pub shards: Option<Seq<Shard>>,
    /// The pause between two rounds, if there is one.
    pub interval: Option<Duration>,
    /// The ids of all shards that were read.
    pub seen_shard_ids: Set<Seq<char>>,
    /// What is waited for.
    pub phase: PhaseView,
}

/// The ids of shards.
pub open spec fn shard_ids(shards: Seq<Shard>) -> Set<Seq<char>> {
    shards.map_values(|shard: Shard| shard@.id).to_set()
}

/// The shards whose id is not among `seen`, in their order.
pub open spec fn unseen(shards: Seq<Shard>, seen: Set<Seq<char>>) -> Seq<Shard> {
    shards.filter(|shard: Shard| !seen.contains(shard@.id))
}

/// The shards that were opened, in the order in which they were. Shards that
/// failed to open and shards that are gone are left out.
pub open spec fn opened(outcomes: Seq<Result<Option<Shard>, Error>>) -> Seq<Shard> {
    outcomes.filter_map(
        |outcome: Result<Option<Shard>, Error>|
            match outcome {
                Ok(shard) => shard,
                Err(_) => None,
            },
    )
}

/// The shards that can be read again, in the order in which they came.
pub open spec fn kept(received: Seq<(Option<Shard>, StreamResult)>) -> Seq<Shard> {
    received.filter_map(|outcome: (Option<Shard>, StreamResult)| outcome.0)
}

/// All results of a round, in the order in which they came.
pub open spec fn results(received: Seq<(Option<Shard>, StreamResult)>) -> Seq<StreamResult> {
    received.map_values(|outcome: (Option<Shard>, StreamResult)| outcome.1)
}

/// Whether a result tells the consumer anything: an error does, and so do
/// records, unless there are none.
pub open spec fn is_worth_sending(result: StreamResult) -> bool {
    result matches Ok(records) ==> records@.len() > 0
}

/// The results to send, in their order.
pub open spec fn worth_sending(results: Seq<StreamResult>) -> Seq<StreamResult> {
    results.filter(|result: StreamResult| is_worth_sending(result))
}

/// The capacity of a channel for that many messages: a channel cannot have none.
pub open spec fn channel_capacity(messages: nat) -> nat {
    if messages == 0 {
        1
    } else {
        messages
    }
}

impl ProducerView {
    /// The same state, waiting for something else.
    pub open spec fn waiting_for(self, phase: PhaseView) -> ProducerView {
        ProducerView { phase, ..self }
    }

    /// The state before polling begins.
    pub open spec fn new(
        table_name: Seq<char>,
        interval: Option<Duration>,
        iterator_type: ShardIteratorType,
    ) -> ProducerView {
        ProducerView {
            table_name,
            stream_arn: Seq::empty(),
            shards: None,
            interval,
            seen_shard_ids: Set::empty(),
            phase: PhaseView::Idle(iterator_type),
        }
    }

    /// Polling ends.
    pub open spec fn stop(self) -> (ProducerView, ActionView) {
        (self.waiting_for(PhaseView::Stopped), ActionView::Stop)
    }

    /// Polling ends with an error, which is the last thing sent.
    pub open spec fn report(self, error: Error) -> (ProducerView, ActionView) {
        (self.waiting_for(PhaseView::Reporting), ActionView::Send(Err(error)))
    }

    /// All shards of the stream are listed.
    pub open spec fn list(self, phase: PhaseView) -> (ProducerView, ActionView) {
        (self.waiting_for(phase), ActionView::GetAllShards { stream_arn: self.stream_arn })
    }

    /// Shards are opened, each by one request.
    pub open spec fn open(
        self,
        shards: Seq<Shard>,
        iterator_type: ShardIteratorType,
        phase: PhaseView,
    ) -> (ProducerView, ActionView) {
        (
            self.waiting_for(phase),
            ActionView::GetShardIterators {
                requests: requests_for(self.stream_arn, shards, iterator_type),
                buffer: channel_capacity(shards.len()),
            },
        )
    }

    /// A round begins: the shards at hand are read, and count as seen.
    pub open spec fn look_into(self) -> (ProducerView, ActionView) {
        let shards = match self.shards {
            Some(shards) => shards,
            None => Seq::empty(),
        };
        (
            ProducerView {
                shards: None,
                seen_shard_ids: self.seen_shard_ids.union(shard_ids(shards)),
                phase: PhaseView::Records,
                ..self
            },
            ActionView::GetRecords { shards, buffer: channel_capacity(shards.len()) },
        )
    }

    /// The first of the pending results is sent. Where there is none, the round
    /// is over: the next one begins behind the pause, or at once.
    pub open spec fn send(self, pending: Seq<StreamResult>) -> (ProducerView, ActionView) {
        if pending.len() > 0 {
            (
                self.waiting_for(PhaseView::Sending { pending: pending.drop_first() }),
                ActionView::Send(pending.first()),
            )
        } else {
            match self.interval {
                Some(duration) => (
                    self.waiting_for(PhaseView::Sleeping),
                    ActionView::Sleep(duration),
                ),
                None => self.look_into(),
            }
        }
    }

    /// How polling goes on behind an event. An event that is not waited for ends
    /// it.
    pub open spec fn step(self, event: Event) -> (ProducerView, ActionView) {
        match (self.phase, event) {
            (PhaseView::Idle(iterator_type), Event::Begin) => (
                self.waiting_for(PhaseView::StreamArn(iterator_type)),
                ActionView::GetStreamArn { table_name: self.table_name },
            ),
            (PhaseView::StreamArn(iterator_type), Event::StreamArn(Ok(stream_arn))) => {
                ProducerView { stream_arn: stream_arn@, ..self }.list(
                    PhaseView::InitialShards(iterator_type),
                )
            },
            (PhaseView::StreamArn(_), Event::StreamArn(Err(error))) => self.report(error),
            (PhaseView::InitialShards(iterator_type), Event::AllShards(Ok(shards))) => self.open(
                shards@,
                iterator_type,
                PhaseView::InitialIterators,
            ),
            (PhaseView::InitialShards(_), Event::AllShards(Err(error))) => self.report(error),
            (PhaseView::InitialIterators, Event::ShardIterators(outcomes)) => (
                ProducerView {
                    shards: Some(opened(outcomes@)),
                    phase: PhaseView::Initialized,
                    ..self
                },
                ActionView::SendInit,
            ),
            (PhaseView::Initialized, Event::InitSent) => self.look_into(),
            (PhaseView::Records, Event::Records(received)) => self.list(
                PhaseView::Shards { kept: kept(received@), results: results(received@) },
            ),
            (PhaseView::Shards { kept, results }, Event::AllShards(Ok(shards))) => self.open(
                unseen(shards@, self.seen_shard_ids),
                ShardIteratorType::TrimHorizon,
                PhaseView::Iterators { kept, results },
            ),
            (PhaseView::Shards { .. }, Event::AllShards(Err(error))) => self.report(error),
            (PhaseView::Iterators { kept, results }, Event::ShardIterators(outcomes)) => (
                ProducerView {
                    shards: Some(kept + opened(outcomes@)),
                    phase: PhaseView::CloseCheck { results },
                    ..self
                },
                ActionView::CheckClose,
            ),
            (PhaseView::CloseCheck { results }, Event::ShouldClose(close)) => if close {
                self.stop()
            } else {
                self.send(worth_sending(results))
            },
            (PhaseView::Sending { pending }, Event::Sent(listening)) => if listening {
                self.send(pending)
            } else {
                self.stop()
            },
            (PhaseView::Sleeping, Event::Slept) => self.look_into(),
            (PhaseView::Reporting, Event::Sent(_)) => self.stop(),
            _ => self.stop(),
        }
    }
}

} // verus!
