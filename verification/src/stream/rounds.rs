//! What becomes of the shards and the results of a round, stated over the events
//! that polling is told of and the actions that it asks for.

use crate::error::{Error, StreamResult};
use crate::selection::{lemma_filter_map_places, lemma_filter_places};
use crate::stream::event::{ActionView, Event};
use crate::stream::laws::{
    action_at, law_requests_keep_their_target, law_stopped_for_good, state_at,
};
use crate::stream::model::{
    is_worth_sending, kept, opened, shard_ids, unseen, worth_sending, PhaseView, ProducerView,
};
use crate::types::initial_interator_type::ShardIteratorType;
use crate::types::shard::Shard;
use std::time::Duration;
use vstd::prelude::*;

verus! {

/// Polling starts from what it is given and with nothing read, listed or opened.
pub proof fn law_polling_starts_with_nothing(
    table_name: Seq<char>,
    interval: Option<Duration>,
    iterator_type: ShardIteratorType,
)
    ensures
        ({
            let start = ProducerView::new(table_name, interval, iterator_type);
            &&& start.table_name == table_name
            &&& start.interval == interval
            &&& start.shards is None
            &&& forall|id: Seq<char>| !(#[trigger] start.seen_shard_ids.contains(id))
            &&& start.phase == PhaseView::Idle(iterator_type)
        }),
{
}

/// An id is among the ids of shards exactly if one of the shards has it.
pub proof fn law_ids_are_those_of_the_shards(shards: Seq<Shard>, id: Seq<char>)
    ensures
        shard_ids(shards).contains(id) <==> exists|k: int|
            0 <= k < shards.len() && (#[trigger] shards[k])@.id == id,
{
    let ids = shards.map_values(|shard: Shard| shard@.id);
    if shard_ids(shards).contains(id) {
        let k = ids.index_of(id);
        assert(shards[k]@.id == id);
    }
    if exists|k: int| 0 <= k < shards.len() && (#[trigger] shards[k])@.id == id {
        let k = choose|k: int| 0 <= k < shards.len() && (#[trigger] shards[k])@.id == id;
        assert(ids[k] == id);
    }
}

/// Whenever a round begins it reads exactly the shards at hand, all of them and in
/// their order, and counts each of them as seen, and no other. No shard is at hand
/// behind that. The table, the stream and the interval stay.
pub proof fn law_round_reads_all_shards_at_hand(state: ProducerView, event: Event)
    requires
        state.step(event).1 is GetRecords,
    ensures
        ({
            let (next, action) = state.step(event);
            let shards = action->shards;
            &&& state.shards matches Some(at_hand) ==> shards == at_hand
            &&& state.shards is None ==> shards.len() == 0
            &&& forall|id: Seq<char>| #[trigger]
                next.seen_shard_ids.contains(id) <==> state.seen_shard_ids.contains(id) || exists|
                    k: int,
                |
                    0 <= k < shards.len() && (#[trigger] shards[k])@.id == id
            &&& next.shards is None
            &&& next.phase is Records
            &&& next.table_name == state.table_name
            &&& next.stream_arn == state.stream_arn
            &&& next.interval == state.interval
        }),
{
    let (next, action) = state.step(event);
    let shards = action->shards;
    assert forall|id: Seq<char>| #[trigger]
        next.seen_shard_ids.contains(id) <==> state.seen_shard_ids.contains(id) || exists|k: int|
            0 <= k < shards.len() && (#[trigger] shards[k])@.id == id by {
        law_ids_are_those_of_the_shards(shards, id);
    }
}

/// Shards count as seen when a round reads them, and at no other time.
pub proof fn law_only_a_round_marks_shards_as_seen(state: ProducerView, event: Event)
    requires
        !(state.step(event).1 is GetRecords),
    ensures
        state.step(event).0.seen_shard_ids == state.seen_shard_ids,
{
}

/// A round begins once the consumer knows that the stream is open, and behind
/// every pause.
pub proof fn law_rounds_begin(state: ProducerView, event: Event)
    requires
        state.phase is Initialized && event is InitSent || state.phase is Sleeping
            && event is Slept,
    ensures
        state.step(event).1 is GetRecords,
{
}

/// What is opened goes on, all of it: the shards at hand behind the opening are
/// those that were kept, followed by the shard of every outcome that has one, in
/// the order of the outcomes. An outcome has a shard exactly if it is no error and
/// the shard is not gone. Nothing else changes, and the results of the round are
/// still at hand. The places of these outcomes are returned.
pub proof fn law_opened_shards_go_on(
    state: ProducerView,
    outcomes: Vec<Result<Option<Shard>, Error>>,
) -> (places: Seq<int>)
    requires
        state.phase is InitialIterators || state.phase is Iterators,
    ensures
        ({
            let (next, action) = state.step(Event::ShardIterators(outcomes));
            let before = match state.phase {
                PhaseView::Iterators { kept, .. } => kept,
                _ => Seq::<Shard>::empty(),
            };
            &&& next.shards matches Some(shards) && {
                &&& shards.len() == before.len() + places.len()
                &&& forall|k: int|
                    0 <= k < before.len() ==> (#[trigger] shards[k]) == before[k]
                &&& forall|k: int|
                    0 <= k < places.len() ==> 0 <= #[trigger] places[k] < outcomes@.len()
                        && outcomes@[places[k]] == Ok::<Option<Shard>, Error>(
                        Some(shards[before.len() + k]),
                    )
            }
            &&& state.phase is InitialIterators ==> action is SendInit && next.phase is Initialized
            &&& state.phase matches PhaseView::Iterators { results, .. } ==> action is CheckClose
                && next.phase == (PhaseView::CloseCheck { results })
            &&& next.table_name == state.table_name
            &&& next.stream_arn == state.stream_arn
            &&& next.interval == state.interval
            &&& next.seen_shard_ids == state.seen_shard_ids
        }),
        forall|k: int, l: int|
            0 <= k < l < places.len() ==> #[trigger] places[k] < #[trigger] places[l],
        forall|i: int|
            0 <= i < outcomes@.len() && (#[trigger] outcomes@[i] matches Ok(Some(_)))
                ==> places.contains(i),
{
    let shard_of = |outcome: Result<Option<Shard>, Error>|
        match outcome {
            Ok(shard) => shard,
            Err(_) => None,
        };
    let places = lemma_filter_map_places(outcomes@, shard_of);
    assert(opened(outcomes@) == outcomes@.filter_map(shard_of));
    assert forall|i: int|
        0 <= i < outcomes@.len() && (#[trigger] outcomes@[i] matches Ok(
            Some(_),
        )) implies places.contains(i) by {
        assert(shard_of(outcomes@[i]) is Some);
    }
    assert forall|k: int| 0 <= k < places.len() implies 0 <= #[trigger] places[k] < outcomes@.len()
        && outcomes@[places[k]] == Ok::<Option<Shard>, Error>(Some(opened(outcomes@)[k])) by {
        assert(shard_of(outcomes@[places[k]]) == Some(opened(outcomes@)[k]));
    }
    places
}

/// A round keeps every result that it received, in order, and every shard that can
/// be read again, in order, and lists the shards of the stream anew. Nothing else
/// changes. The places of the shards that are kept are returned.
pub proof fn law_round_keeps_what_it_received(
    state: ProducerView,
    received: Vec<(Option<Shard>, StreamResult)>,
) -> (places: Seq<int>)
    requires
        state.phase is Records,
    ensures
        ({
            let (next, action) = state.step(Event::Records(received));
            &&& action == (ActionView::GetAllShards { stream_arn: state.stream_arn })
            &&& next.phase matches PhaseView::Shards { kept, results } && {
                &&& results.len() == received@.len()
                &&& forall|k: int|
                    0 <= k < results.len() ==> (#[trigger] results[k]) == received@[k].1
                &&& kept.len() == places.len()
                &&& forall|k: int|
                    0 <= k < places.len() ==> 0 <= #[trigger] places[k] < received@.len()
                        && received@[places[k]].0 == Some(kept[k])
            }
            &&& next.table_name == state.table_name
            &&& next.stream_arn == state.stream_arn
            &&& next.shards == state.shards
            &&& next.interval == state.interval
            &&& next.seen_shard_ids == state.seen_shard_ids
        }),
        forall|k: int, l: int|
            0 <= k < l < places.len() ==> #[trigger] places[k] < #[trigger] places[l],
        forall|i: int|
            0 <= i < received@.len() && (#[trigger] received@[i]).0 is Some ==> places.contains(i),
{
    let shard_of = |outcome: (Option<Shard>, StreamResult)| outcome.0;
    let places = lemma_filter_map_places(received@, shard_of);
    assert(kept(received@) == received@.filter_map(shard_of));
    assert forall|i: int|
        0 <= i < received@.len() && (#[trigger] received@[i]).0 is Some implies places.contains(
        i,
    ) by {
        assert(shard_of(received@[i]) is Some);
    }
    assert forall|k: int| 0 <= k < places.len() implies 0 <= #[trigger] places[k] < received@.len()
        && received@[places[k]].0 == Some(kept(received@)[k]) by {
        assert(shard_of(received@[places[k]]) == Some(kept(received@)[k]));
    }
    places
}

/// When the shards are listed anew, every listed shard that is not seen is asked
/// for by one request, in the order of the list, and no other shard is: whatever
/// its parent is. The request names the stream, the shard and its parent, asks for
/// the shard's oldest record, and names no record. What the round kept stays at
/// hand, and nothing else changes. The places of these shards are returned.
pub proof fn law_every_unseen_shard_is_asked_for(
    state: ProducerView,
    listed: Vec<Shard>,
) -> (places: Seq<int>)
    requires
        state.phase is Shards,
    ensures
        ({
            let (next, action) = state.step(Event::AllShards(Ok(listed)));
            &&& action matches ActionView::GetShardIterators { requests, .. } && {
                &&& requests.len() == places.len()
                &&& forall|k: int|
                    0 <= k < places.len() ==> 0 <= #[trigger] places[k] < listed@.len()
                        && !state.seen_shard_ids.contains(listed@[places[k]]@.id)
                        && requests[k].stream_arn == state.stream_arn && requests[k].shard_id
                        == listed@[places[k]]@.id && requests[k].parent_shard_id
                        == listed@[places[k]]@.parent_shard_id && requests[k].iterator_type
                        == ShardIteratorType::TrimHorizon && requests[k].sequence_number is None
            }
            &&& state.phase matches PhaseView::Shards { kept, results } ==> next.phase == (
            PhaseView::Iterators { kept, results })
            &&& next.table_name == state.table_name
            &&& next.stream_arn == state.stream_arn
            &&& next.shards == state.shards
            &&& next.interval == state.interval
            &&& next.seen_shard_ids == state.seen_shard_ids
        }),
        forall|k: int, l: int|
            0 <= k < l < places.len() ==> #[trigger] places[k] < #[trigger] places[l],
        forall|i: int|
            0 <= i < listed@.len() && !state.seen_shard_ids.contains((#[trigger] listed@[i])@.id)
                ==> places.contains(i),
{
    let is_unseen = |shard: Shard| !state.seen_shard_ids.contains(shard@.id);
    let places = lemma_filter_places(listed@, is_unseen);
    assert(unseen(listed@, state.seen_shard_ids) == listed@.filter(is_unseen));
    assert forall|i: int|
        0 <= i < listed@.len() && !state.seen_shard_ids.contains(
            (#[trigger] listed@[i])@.id,
        ) implies places.contains(i) by {
        assert(is_unseen(listed@[i]));
    }
    assert forall|k: int| 0 <= k < places.len() implies 0 <= #[trigger] places[k] < listed@.len()
        && !state.seen_shard_ids.contains(listed@[places[k]]@.id) && unseen(
        listed@,
        state.seen_shard_ids,
    )[k] == listed@[places[k]] by {
        assert(is_unseen(listed@[places[k]]));
    }
    places
}

/// A round that was begun goes on to the next one in this way only: its records
/// come, the shards are listed, the new ones are opened, and it is not to close.
proof fn lemma_course_of_a_round(start: ProducerView, events: Seq<Event>, i: nat, j: nat)
    requires
        i < j,
        action_at(start, events, i) is GetRecords,
        action_at(start, events, j) is GetRecords,
    ensures
        i + 4 <= j,
        events[i as int + 1] is Records,
        events[i as int + 2] matches Event::AllShards(listed) && listed is Ok,
        events[i as int + 3] is ShardIterators,
        events[i as int + 4] == Event::ShouldClose(false),
        state_at(start, events, i + 1).phase is Records,
        state_at(start, events, i + 2) == state_at(start, events, i + 1).step(
            events[i as int + 1],
        ).0,
        state_at(start, events, i + 2).phase is Shards,
        state_at(start, events, i + 3) == state_at(start, events, i + 2).step(
            events[i as int + 2],
        ).0,
        state_at(start, events, i + 3).phase is Iterators,
        state_at(start, events, i + 4) == state_at(start, events, i + 3).step(
            events[i as int + 3],
        ).0,
        state_at(start, events, i + 4).phase is CloseCheck,
{
    assert(state_at(start, events, i + 1).phase is Records);
    if !(events[i as int + 1] is Records) || j == i + 1 {
        assert(action_at(start, events, i + 1) is Stop || action_at(
            start,
            events,
            i + 1,
        ) is GetAllShards);
        lemma_stopped_from(start, events, i + 1, j);
    }
    assert(state_at(start, events, i + 2).phase is Shards);
    if !(events[i as int + 2] matches Event::AllShards(listed) && listed is Ok) || j == i + 2 {
        if events[i as int + 2] is AllShards && events[i as int + 2]->AllShards_0 is Err {
            assert(state_at(start, events, i + 3).phase is Reporting);
            assert(action_at(start, events, i + 3) is Stop);
            lemma_stopped_from(start, events, i + 3, j);
        } else {
            lemma_stopped_from(start, events, i + 2, j);
        }
    }
    assert(state_at(start, events, i + 3).phase is Iterators);
    if !(events[i as int + 3] is ShardIterators) || j == i + 3 {
        lemma_stopped_from(start, events, i + 3, j);
    }
    assert(state_at(start, events, i + 4).phase is CloseCheck);
    if events[i as int + 4] != Event::ShouldClose(false) {
        lemma_stopped_from(start, events, i + 4, j);
    }
}

/// Where polling stops at `i`, no round begins from there on.
proof fn lemma_stopped_from(start: ProducerView, events: Seq<Event>, i: nat, j: nat)
    ensures
        i <= j && action_at(start, events, i) is Stop ==> action_at(start, events, j) is Stop,
{
    if i <= j && action_at(start, events, i) is Stop {
        law_stopped_for_good(start, events, i, j);
    }
}

/// The shards at hand stay until the next round begins.
proof fn lemma_shards_stay_at_hand(
    start: ProducerView,
    events: Seq<Event>,
    i: nat,
    m: nat,
    j: nat,
)
    requires
        i <= m <= j,
        state_at(start, events, i).phase is CloseCheck,
        action_at(start, events, j) is GetRecords,
        forall|k: nat| i <= k < j ==> !(#[trigger] action_at(start, events, k) is GetRecords),
    ensures
        ({
            let state = state_at(start, events, m);
            &&& state.phase is CloseCheck || state.phase is Sending || state.phase is Sleeping
            &&& state.shards == state_at(start, events, i).shards
        }),
    decreases m,
{
    if i < m {
        let before = (m - 1) as nat;
        lemma_shards_stay_at_hand(start, events, i, before, j);
        assert(!(action_at(start, events, before) is GetRecords));
        lemma_stopped_from(start, events, before, j);
    }
}

/// What a round leaves is what the next one reads, all of it and nothing else,
/// whatever is sent in between and whether or not there is a pause: first the
/// shards that came back from the reads, in the order in which they came back, and
/// behind them the shards that were opened since, in the order in which they were
/// opened. The places of both are returned.
pub proof fn law_next_round_reads_what_the_round_left(
    start: ProducerView,
    events: Seq<Event>,
    i: nat,
    j: nat,
) -> (places: (Seq<int>, Seq<int>))
    requires
        i < j,
        action_at(start, events, i) is GetRecords,
        action_at(start, events, j) is GetRecords,
        forall|k: nat| i < k < j ==> !(#[trigger] action_at(start, events, k) is GetRecords),
    ensures
        events[i as int + 1] is Records,
        events[i as int + 3] is ShardIterators,
        ({
            let received = events[i as int + 1]->Records_0@;
            let outcomes = events[i as int + 3]->ShardIterators_0@;
            let read = action_at(start, events, j)->shards;
            let (kept_places, new_places) = places;
            &&& read.len() == kept_places.len() + new_places.len()
            &&& forall|k: int|
                0 <= k < kept_places.len() ==> 0 <= #[trigger] kept_places[k] < received.len()
                    && received[kept_places[k]].0 == Some(read[k])
            &&& forall|k: int, l: int|
                0 <= k < l < kept_places.len() ==> #[trigger] kept_places[k]
                    < #[trigger] kept_places[l]
            &&& forall|m: int|
                0 <= m < received.len() && (#[trigger] received[m]).0 is Some
                    ==> kept_places.contains(m)
            &&& forall|k: int|
                0 <= k < new_places.len() ==> 0 <= #[trigger] new_places[k] < outcomes.len()
                    && outcomes[new_places[k]] == Ok::<Option<Shard>, Error>(
                    Some(read[kept_places.len() + k]),
                )
            &&& forall|k: int, l: int|
                0 <= k < l < new_places.len() ==> #[trigger] new_places[k]
                    < #[trigger] new_places[l]
            &&& forall|m: int|
                0 <= m < outcomes.len() && (#[trigger] outcomes[m] matches Ok(Some(_)))
                    ==> new_places.contains(m)
        }),
{
    lemma_course_of_a_round(start, events, i, j);
    let received = events[i as int + 1]->Records_0;
    let listed = events[i as int + 2]->AllShards_0->Ok_0;
    let outcomes = events[i as int + 3]->ShardIterators_0;
    let kept_places = law_round_keeps_what_it_received(state_at(start, events, i + 1), received);
    let _ = law_every_unseen_shard_is_asked_for(state_at(start, events, i + 2), listed);
    let new_places = law_opened_shards_go_on(state_at(start, events, i + 3), outcomes);
    lemma_shards_stay_at_hand(start, events, i + 4, j, j);
    law_round_reads_all_shards_at_hand(state_at(start, events, j), events[j as int]);
    let shards = state_at(start, events, i + 4).shards->0;
    let kept_shards = state_at(start, events, i + 2).phase->Shards_kept;
    assert forall|k: int| 0 <= k < kept_places.len() implies 0 <= #[trigger] kept_places[k]
        < received@.len() && received@[kept_places[k]].0 == Some(shards[k]) by {
        assert(shards[k] == kept_shards[k]);
    }
    (kept_places, new_places)
}

/// The first round reads the shard of every outcome of the opening that has one,
/// in the order of the outcomes, and nothing else. The places of these outcomes
/// are returned.
pub proof fn law_first_round_reads_what_was_opened(
    table_name: Seq<char>,
    interval: Option<Duration>,
    iterator_type: ShardIteratorType,
    events: Seq<Event>,
    j: nat,
) -> (places: Seq<int>)
    requires
        action_at(
            ProducerView::new(table_name, interval, iterator_type),
            events,
            j,
        ) is GetRecords,
        forall|k: nat|
            k < j ==> !(#[trigger] action_at(
                ProducerView::new(table_name, interval, iterator_type),
                events,
                k,
            ) is GetRecords),
    ensures
        j == 4,
        events[3] is ShardIterators,
        ({
            let outcomes = events[3]->ShardIterators_0@;
            let read = action_at(
                ProducerView::new(table_name, interval, iterator_type),
                events,
                j,
            )->shards;
            &&& read.len() == places.len()
            &&& forall|k: int|
                0 <= k < places.len() ==> 0 <= #[trigger] places[k] < outcomes.len()
                    && outcomes[places[k]] == Ok::<Option<Shard>, Error>(Some(read[k]))
            &&& forall|k: int, l: int|
                0 <= k < l < places.len() ==> #[trigger] places[k] < #[trigger] places[l]
            &&& forall|m: int|
                0 <= m < outcomes.len() && (#[trigger] outcomes[m] matches Ok(Some(_)))
                    ==> places.contains(m)
        }),
{
    let start = ProducerView::new(table_name, interval, iterator_type);
    reveal_with_fuel(state_at, 6);
    assert(state_at(start, events, 0).phase is Idle);
    assert(j != 0);
    lemma_stopped_from(start, events, 0, j);
    assert(state_at(start, events, 1).phase is StreamArn);
    assert(j != 1);
    lemma_stopped_from(start, events, 1, j);
    if !(state_at(start, events, 2).phase is InitialShards) {
        assert(action_at(start, events, 2) is Stop);
        lemma_stopped_from(start, events, 2, j);
    }
    assert(j != 2);
    lemma_stopped_from(start, events, 2, j);
    if !(state_at(start, events, 3).phase is InitialIterators) {
        assert(action_at(start, events, 3) is Stop);
        lemma_stopped_from(start, events, 3, j);
    }
    assert(j != 3);
    lemma_stopped_from(start, events, 3, j);
    assert(state_at(start, events, 4).phase is Initialized);
    lemma_stopped_from(start, events, 4, j);
    assert(action_at(start, events, 4) is GetRecords);
    let places = law_opened_shards_go_on(
        state_at(start, events, 3),
        events[3]->ShardIterators_0,
    );
    law_round_reads_all_shards_at_hand(state_at(start, events, 4), events[4]);
    places
}

/// The results at hand are sent one by one for as long as the consumer listens.
proof fn lemma_pending_results_are_sent(
    start: ProducerView,
    events: Seq<Event>,
    i: nat,
    n: nat,
    all: Seq<StreamResult>,
)
    requires
        state_at(start, events, i).phase == (PhaseView::CloseCheck { results: all }),
        events[i as int] == Event::ShouldClose(false),
        forall|m: int| i < m <= i + n ==> #[trigger] events[m] == Event::Sent(true),
        n <= worth_sending(all).len(),
    ensures
        ({
            let pending = worth_sending(all);
            let action = action_at(start, events, i + n);
            &&& n < pending.len() ==> action == ActionView::Send(pending[n as int]) && state_at(
                start,
                events,
                i + n + 1,
            ).phase == (PhaseView::Sending { pending: pending.skip(n as int + 1) })
            &&& n == pending.len() ==> match start.interval {
                Some(duration) => action == ActionView::Sleep(duration),
                None => action is GetRecords,
            }
        }),
    decreases n,
{
    let pending = worth_sending(all);
    law_requests_keep_their_target(start, events, 0, i + n);
    if n == 0 {
        if pending.len() > 0 {
            assert(pending.drop_first() =~= pending.skip(1));
        }
    } else {
        let before = (n - 1) as nat;
        lemma_pending_results_are_sent(start, events, i, before, all);
        let left = pending.skip(n as int);
        assert(state_at(start, events, i + n).phase == (PhaseView::Sending { pending: left }));
        assert(events[(i + n) as int] == Event::Sent(true));
        if n < pending.len() {
            assert(left.first() == pending[n as int]);
            assert(left.drop_first() =~= pending.skip(n as int + 1));
        }
    }
}

/// Every result of a round that tells the consumer anything is sent, in the order
/// in which the results came, as long as the consumer listens: every error, and
/// all records of every read that had any. Nothing else is sent, and behind the
/// last result comes the pause, or the next round where there is none. The places
/// of these results among what was received are returned.
pub proof fn law_results_of_a_round_are_sent(
    start: ProducerView,
    events: Seq<Event>,
    i: nat,
    n: nat,
) -> (places: Seq<int>)
    requires
        action_at(start, events, i) is GetRecords,
        events[i as int + 1] is Records,
        events[i as int + 2] matches Event::AllShards(listed) && listed is Ok,
        events[i as int + 3] is ShardIterators,
        events[i as int + 4] == Event::ShouldClose(false),
        forall|m: int| i + 4 < m <= i + 4 + n ==> #[trigger] events[m] == Event::Sent(true),
    ensures
        ({
            let received = events[i as int + 1]->Records_0@;
            let action = action_at(start, events, i + 4 + n);
            &&& n < places.len() ==> action == ActionView::Send(received[places[n as int]].1)
            &&& n == places.len() ==> match start.interval {
                Some(duration) => action == ActionView::Sleep(duration),
                None => action is GetRecords,
            }
            &&& forall|k: int|
                0 <= k < places.len() ==> 0 <= #[trigger] places[k] < received.len() && (
                received[places[k]].1 matches Ok(records) ==> records@.len() > 0)
            &&& forall|m: int|
                0 <= m < received.len() && ((#[trigger] received[m]).1 is Err
                    || received[m].1->Ok_0@.len() > 0) ==> places.contains(m)
        }),
        forall|k: int, l: int|
            0 <= k < l < places.len() ==> #[trigger] places[k] < #[trigger] places[l],
{
    let received = events[i as int + 1]->Records_0;
    let listed = events[i as int + 2]->AllShards_0->Ok_0;
    let outcomes = events[i as int + 3]->ShardIterators_0;
    assert(state_at(start, events, i + 1).phase is Records);
    let _ = law_round_keeps_what_it_received(state_at(start, events, i + 1), received);
    assert(state_at(start, events, i + 2).phase is Shards);
    let all = state_at(start, events, i + 2).phase->Shards_results;
    let _ = law_every_unseen_shard_is_asked_for(state_at(start, events, i + 2), listed);
    assert(state_at(start, events, i + 3).phase is Iterators);
    let _ = law_opened_shards_go_on(state_at(start, events, i + 3), outcomes);
    assert(state_at(start, events, i + 4).phase == (PhaseView::CloseCheck { results: all }));
    let is_worth = |result: StreamResult| is_worth_sending(result);
    let places = lemma_filter_places(all, is_worth);
    assert(worth_sending(all) == all.filter(is_worth));
    if n <= places.len() {
        lemma_pending_results_are_sent(start, events, i + 4, n, all);
    }
    assert forall|k: int| 0 <= k < places.len() implies 0 <= #[trigger] places[k] < received@.len()
        && (received@[places[k]].1 matches Ok(records) ==> records@.len() > 0) by {
        assert(is_worth(all[places[k]]));
    }
    assert forall|m: int|
        0 <= m < received@.len() && ((#[trigger] received@[m]).1 is Err
            || received@[m].1->Ok_0@.len() > 0) implies places.contains(m) by {
        assert(all[m] == received@[m].1);
        assert(is_worth(all[m]));
    }
    places
}

} // verus!
