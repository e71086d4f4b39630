//! The polling half of a stream.

use crate::error::{Error, StreamResult};
use crate::stream::event::{Action, Event};
use crate::stream::model::{
    channel_capacity, is_worth_sending, kept, opened, results, shard_ids, unseen, worth_sending,
    PhaseView, ProducerView,
};
use crate::types::initial_interator_type::ShardIteratorType;
use crate::types::lineages::Lineages;
use crate::types::request::shard_iterator_requests;
use crate::types::shard::Shard;
use std::collections::VecDeque;
use std::time::Duration;
use vstd::hash_set::StringHashSet;
use vstd::prelude::*;

verus! {

/// What the polling half waits for.
enum Phase {
    Idle(ShardIteratorType),
    StreamArn(ShardIteratorType),
    InitialShards(ShardIteratorType),
    InitialIterators,
    Initialized,
    Records,
    Shards { kept: Vec<Shard>, results: Vec<StreamResult> },
    Iterators { kept: Vec<Shard>, results: Vec<StreamResult> },
    CloseCheck { results: Vec<StreamResult> },
    Sending { pending: VecDeque<StreamResult> },
    Sleeping,
    Reporting,
    Stopped,
}

impl View for Phase {
    type V = PhaseView;

    closed spec fn view(&self) -> PhaseView {
        match self {
            Phase::Idle(iterator_type) => PhaseView::Idle(*iterator_type),
            Phase::StreamArn(iterator_type) => PhaseView::StreamArn(*iterator_type),
            Phase::InitialShards(iterator_type) => PhaseView::InitialShards(*iterator_type),
            Phase::InitialIterators => PhaseView::InitialIterators,
            Phase::Initialized => PhaseView::Initialized,
            Phase::Records => PhaseView::Records,
            Phase::Shards { kept, results } => PhaseView::Shards {
                kept: kept@,
                results: results@,
            },
            Phase::Iterators { kept, results } => PhaseView::Iterators {
                kept: kept@,
                results: results@,
            },
            Phase::CloseCheck { results } => PhaseView::CloseCheck { results: results@ },
            Phase::Sending { pending } => PhaseView::Sending { pending: pending@ },
            Phase::Sleeping => PhaseView::Sleeping,
            Phase::Reporting => PhaseView::Reporting,
            Phase::Stopped => PhaseView::Stopped,
        }
    }
}

/// The polling half of DynamoDB Streams.
///
/// It begins with [`Event::Begin`] and is then told the outcome of each
/// [`Action`] that it asks for, until it asks to [`Action::Stop`].
pub struct DynamodbStreamProducer<Client> {
    table_name: String,
    stream_arn: String,
    shards: Option<Vec<Shard>>,
    client: Client,
    interval: Option<Duration>,
    // Grows with every shard of the stream; nothing is evicted.
    seen_shard_ids: StringHashSet,
    phase: Phase,
}

impl<Client> View for DynamodbStreamProducer<Client> {
    type V = ProducerView;

    closed spec fn view(&self) -> ProducerView {
        ProducerView {
            table_name: self.table_name@,
            stream_arn: self.stream_arn@,
            shards: match self.shards {
                Some(shards) => Some(shards@),
                None => None,
            },
            interval: self.interval,
            seen_shard_ids: self.seen_shard_ids@,
            phase: self.phase@,
        }
    }
}

/// The capacity for a channel that is to hold `messages` messages.
fn capacity_for(messages: usize) -> (capacity: usize)
    ensures
        capacity == channel_capacity(messages as nat),
{
    if messages == 0 {
        1
    } else {
        messages
    }
}

/// Picks the shards whose id is not among `seen`.
fn pick_unseen(shards: Vec<Shard>, seen: &StringHashSet) -> (picked: Vec<Shard>)
    ensures
        picked@ == unseen(shards@, seen@),
{
    let ghost is_unseen = |shard: Shard| !seen@.contains(shard@.id);
    let mut picked: Vec<Shard> = Vec::new();
    proof {
        reveal(Seq::filter);
        assert(shards@.take(0).filter(is_unseen) =~= Seq::empty());
    }
    for shard in it: shards
        invariant
            it.seq() == shards@,
            is_unseen == (|shard: Shard| !seen@.contains(shard@.id)),
            picked@ == it.seq().take(it.index()).filter(is_unseen),
    {
        proof {
            reveal(Seq::filter);
            let read = it.seq().take(it.index() + 1);
            assert(read.drop_last() =~= it.seq().take(it.index()));
            assert(read.last() == shard);
        }
        if !seen.contains(shard.id()) {
            picked.push(shard);
        }
    }
    assert(shards@.take(shards@.len() as int) =~= shards@);
    picked
}

/// Picks the shards that were opened.
fn pick_opened(outcomes: Vec<Result<Option<Shard>, Error>>) -> (picked: Vec<Shard>)
    ensures
        picked@ == opened(outcomes@),
{
    let mut picked: Vec<Shard> = Vec::new();
    assert(outcomes@.take(0) =~= Seq::empty());
    for outcome in it: outcomes
        invariant
            it.seq() == outcomes@,
            picked@ == opened(it.seq().take(it.index())),
    {
        proof {
            let read = it.seq().take(it.index() + 1);
            assert(read.drop_last() =~= it.seq().take(it.index()));
            assert(read.last() == outcome);
        }
        match outcome {
            Ok(Some(shard)) => picked.push(shard),
            _ => {},
        }
    }
    assert(outcomes@.take(outcomes@.len() as int) =~= outcomes@);
    picked
}

/// Parts the outcomes of a round into the shards to keep and the results.
fn part(received: Vec<(Option<Shard>, StreamResult)>) -> (parted: (Vec<Shard>, Vec<StreamResult>))
    ensures
        parted.0@ == kept(received@),
        parted.1@ == results(received@),
{
    let mut kept_shards: Vec<Shard> = Vec::new();
    let mut all_results: Vec<StreamResult> = Vec::new();
    assert(received@.take(0) =~= Seq::empty());
    for outcome in it: received
        invariant
            it.seq() == received@,
            kept_shards@ == kept(it.seq().take(it.index())),
            all_results@ == results(it.seq().take(it.index())),
    {
        let ghost before = it.seq().take(it.index());
        proof {
            let read = it.seq().take(it.index() + 1);
            assert(read.drop_last() =~= before);
            assert(read.last() == outcome);
            assert(results(read) =~= results(before).push(outcome.1));
        }
        let (shard, result) = outcome;
        match shard {
            Some(shard) => kept_shards.push(shard),
            None => {},
        }
        all_results.push(result);
    }
    assert(received@.take(received@.len() as int) =~= received@);
    (kept_shards, all_results)
}

/// Picks the results to send.
fn pick_worth_sending(all: Vec<StreamResult>) -> (picked: VecDeque<StreamResult>)
    ensures
        picked@ == worth_sending(all@),
{
    let ghost is_worth = |result: StreamResult| is_worth_sending(result);
    let mut picked: VecDeque<StreamResult> = VecDeque::new();
    proof {
        reveal(Seq::filter);
        assert(all@.take(0).filter(is_worth) =~= Seq::empty());
    }
    for result in it: all
        invariant
            it.seq() == all@,
            is_worth == (|result: StreamResult| is_worth_sending(result)),
            picked@ == it.seq().take(it.index()).filter(is_worth),
    {
        proof {
            reveal(Seq::filter);
            let read = it.seq().take(it.index() + 1);
            assert(read.drop_last() =~= it.seq().take(it.index()));
            assert(read.last() == result);
        }
        let skip = match &result {
            Ok(records) => records.is_empty(),
            Err(_) => false,
        };
        if !skip {
            picked.push_back(result);
        }
    }
    assert(all@.take(all@.len() as int) =~= all@);
    picked
}

impl<Client> DynamodbStreamProducer<Client> {
    /// The client to perform the requests with.
    pub closed spec fn spec_client(self) -> Client {
        self.client
    }

    /// Creates a producer that has not begun.
    pub fn new(
        client: Client,
        table_name: String,
        interval: Option<Duration>,
        iterator_type: ShardIteratorType,
    ) -> (producer: Self)
        ensures
            producer@ == ProducerView::new(table_name@, interval, iterator_type),
            producer.spec_client() == client,
    {
        Self {
            table_name,
            stream_arn: String::new(),
            shards: None,
            client,
            interval,
            seen_shard_ids: StringHashSet::new(),
            phase: Phase::Idle(iterator_type),
        }
    }

    /// The client to perform the requests with.
    pub fn client(&self) -> (client: &Client)
        ensures
            *client == self.spec_client(),
    {
        &self.client
    }

    /// Ends polling.
    fn stop(self) -> (next: (Self, Action))
        ensures
            (next.0@, next.1@) == self@.stop(),
            next.0.spec_client() == self.spec_client(),
    {
        (Self { phase: Phase::Stopped, ..self }, Action::Stop)
    }

    /// Ends polling with an error.
    fn report(self, error: Error) -> (next: (Self, Action))
        ensures
            (next.0@, next.1@) == self@.report(error),
            next.0.spec_client() == self.spec_client(),
    {
        (Self { phase: Phase::Reporting, ..self }, Action::Send(Err(error)))
    }

    /// Lists all shards of the stream.
    fn list(self, phase: Phase) -> (next: (Self, Action))
        ensures
            (next.0@, next.1@) == self@.list(phase@),
            next.0.spec_client() == self.spec_client(),
    {
        let stream_arn = self.stream_arn.clone();
        (Self { phase, ..self }, Action::GetAllShards { stream_arn })
    }

    /// Opens shards.
    fn open(
        self,
        shards: Vec<Shard>,
        iterator_type: ShardIteratorType,
        phase: Phase,
    ) -> (next: (Self, Action))
        ensures
            (next.0@, next.1@) == self@.open(shards@, iterator_type, phase@),
            next.0.spec_client() == self.spec_client(),
    {
        let buffer = capacity_for(shards.len());
        let requests = shard_iterator_requests(&self.stream_arn, shards, iterator_type);
        (Self { phase, ..self }, Action::GetShardIterators { requests, buffer })
    }

    /// Begins a round.
    fn look_into(self) -> (next: (Self, Action))
        ensures
            (next.0@, next.1@) == self@.look_into(),
            next.0.spec_client() == self.spec_client(),
    {
        let shards = match self.shards {
            Some(shards) => shards,
            None => Vec::new(),
        };
        let mut seen_shard_ids = self.seen_shard_ids;
        let ghost seen = seen_shard_ids@;
        assert(seen_shard_ids@ =~= seen.union(shard_ids(shards@.take(0))));
        for i in 0..shards.len()
            invariant
                seen_shard_ids@ == seen.union(shard_ids(shards@.take(i as int))),
        {
            proof {
                lemma_shard_ids_step(shards@, i as int);
            }
            seen_shard_ids.insert(shards[i].id().to_owned());
            assert(seen_shard_ids@ =~= seen.union(shard_ids(shards@.take(i + 1))));
        }
        assert(shards@.take(shards@.len() as int) =~= shards@);
        let buffer = capacity_for(shards.len());
        (
            Self { shards: None, seen_shard_ids, phase: Phase::Records, ..self },
            Action::GetRecords { lineages: Lineages::new(shards), buffer },
        )
    }

    /// Sends the first of the pending results, or ends the round.
    fn send(self, pending: VecDeque<StreamResult>) -> (next: (Self, Action))
        ensures
            (next.0@, next.1@) == self@.send(pending@),
            next.0.spec_client() == self.spec_client(),
    {
        let mut pending = pending;
        let ghost all = pending@;
        match pending.pop_front() {
            Some(result) => {
                assert(pending@ =~= all.drop_first());
                (Self { phase: Phase::Sending { pending }, ..self }, Action::Send(result))
            },
            None => match self.interval {
                Some(duration) => (
                    Self { phase: Phase::Sleeping, ..self },
                    Action::Sleep(duration),
                ),
                None => self.look_into(),
            },
        }
    }

    /// Takes the outcome of the last action and returns the next one. An event
    /// that is not waited for ends polling.
    pub fn step(self, event: Event) -> (next: (Self, Action))
        ensures
            (next.0@, next.1@) == self@.step(event),
            next.0.spec_client() == self.spec_client(),
    {
        let Self { table_name, stream_arn, shards, client, interval, seen_shard_ids, phase } = self;
        let rest = Self {
            table_name,
            stream_arn,
            shards,
            client,
            interval,
            seen_shard_ids,
            phase: Phase::Stopped,
        };
        match (phase, event) {
            (Phase::Idle(iterator_type), Event::Begin) => {
                let table_name = rest.table_name.clone();
                (
                    Self { phase: Phase::StreamArn(iterator_type), ..rest },
                    Action::GetStreamArn { table_name },
                )
            },
            (Phase::StreamArn(iterator_type), Event::StreamArn(Ok(stream_arn))) => {
                Self { stream_arn, ..rest }.list(Phase::InitialShards(iterator_type))
            },
            (Phase::StreamArn(_), Event::StreamArn(Err(error))) => rest.report(error),
            (Phase::InitialShards(iterator_type), Event::AllShards(Ok(shards))) => rest.open(
                shards,
                iterator_type,
                Phase::InitialIterators,
            ),
            (Phase::InitialShards(_), Event::AllShards(Err(error))) => rest.report(error),
            (Phase::InitialIterators, Event::ShardIterators(outcomes)) => (
                Self {
                    shards: Some(pick_opened(outcomes)),
                    phase: Phase::Initialized,
                    ..rest
                },
                Action::SendInit,
            ),
            (Phase::Initialized, Event::InitSent) => rest.look_into(),
            (Phase::Records, Event::Records(received)) => {
                let (kept, results) = part(received);
                rest.list(Phase::Shards { kept, results })
            },
            (Phase::Shards { kept, results }, Event::AllShards(Ok(shards))) => {
                let new_shards = pick_unseen(shards, &rest.seen_shard_ids);
                rest.open(
                    new_shards,
                    ShardIteratorType::TrimHorizon,
                    Phase::Iterators { kept, results },
                )
            },
            (Phase::Shards { .. }, Event::AllShards(Err(error))) => rest.report(error),
            (Phase::Iterators { kept, results }, Event::ShardIterators(outcomes)) => {
                let mut shards = kept;
                let mut new_shards = pick_opened(outcomes);
                shards.append(&mut new_shards);
                (
                    Self {
                        shards: Some(shards),
                        phase: Phase::CloseCheck { results },
                        ..rest
                    },
                    Action::CheckClose,
                )
            },
            (Phase::CloseCheck { results }, Event::ShouldClose(close)) => {
                if close {
                    rest.stop()
                } else {
                    rest.send(pick_worth_sending(results))
                }
            },
            (Phase::Sending { pending }, Event::Sent(listening)) => {
                if listening {
                    rest.send(pending)
                } else {
                    rest.stop()
                }
            },
            (Phase::Sleeping, Event::Slept) => rest.look_into(),
            (Phase::Reporting, Event::Sent(_)) => rest.stop(),
            _ => rest.stop(),
        }
    }
}

/// One more shard adds its id.
proof fn lemma_shard_ids_step(shards: Seq<Shard>, i: int)
    requires
        0 <= i < shards.len(),
    ensures
        shard_ids(shards.take(i + 1)) =~= shard_ids(shards.take(i)).insert(shards[i]@.id),
{
    let ids = |shard: Shard| shard@.id;
    let before = shards.take(i).map_values(ids);
    let after = shards.take(i + 1).map_values(ids);
    assert(after =~= before.push(shards[i]@.id));
    assert forall|id: Seq<char>| #[trigger] after.contains(id) <==> before.contains(id) || id
        == shards[i]@.id by {
        if before.contains(id) {
            let at = before.index_of(id);
            assert(after[at] == id);
        }
        assert(after[i] == shards[i]@.id);
    }
}

} // verus!
