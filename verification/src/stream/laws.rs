//! What holds of polling as a whole, whatever the events are.

use crate::client_sdk::{is_opened, is_read};
use crate::error::{Error, StreamResult};
use crate::stream::event::{ActionView, Event};
use crate::stream::model::{
    channel_capacity, is_worth_sending, kept, opened, results, shard_ids, unseen, worth_sending,
    PhaseView, ProducerView,
};
use crate::types::initial_interator_type::ShardIteratorType;
use crate::types::output::{spec_read_outcome, GetRecordsOutput, RecordsPage};
use crate::types::request::{requests_for, ShardIteratorRequestView};
use crate::types::shard::{Shard, ShardView};
use std::time::Duration;
use vstd::prelude::*;

verus! {

/// The state that polling is in behind the first `i` events.
pub open spec fn state_at(start: ProducerView, events: Seq<Event>, i: nat) -> ProducerView
    decreases i,
{
    if i == 0 {
        start
    } else {
        state_at(start, events, (i - 1) as nat).step(events[i - 1]).0
    }
}

/// The action that the event at `i` leads to.
pub open spec fn action_at(start: ProducerView, events: Seq<Event>, i: nat) -> ActionView {
    state_at(start, events, i).step(events[i as int]).1
}

/// Whether the stream is still to be opened.
pub open spec fn is_opening(phase: PhaseView) -> bool {
    match phase {
        PhaseView::Idle(_) => true,
        PhaseView::StreamArn(_) => true,
        PhaseView::InitialShards(_) => true,
        PhaseView::InitialIterators => true,
        _ => false,
    }
}

/// Whether an action reads the shard of an id.
pub open spec fn reads(action: ActionView, id: Seq<char>) -> bool {
    action matches ActionView::GetRecords { shards, .. } && shard_ids(shards).contains(id)
}

/// The ids of the shards that requests ask for.
pub open spec fn requested_ids(requests: Seq<ShardIteratorRequestView>) -> Set<Seq<char>> {
    requests.map_values(|request: ShardIteratorRequestView| request.shard_id).to_set()
}

/// Whether an action opens the shard of an id.
pub open spec fn opens(action: ActionView, id: Seq<char>) -> bool {
    action matches ActionView::GetShardIterators { requests, .. } && requested_ids(
        requests,
    ).contains(id)
}

/// Requests ask for the shards that they were made for.
proof fn lemma_requested_ids(
    stream_arn: Seq<char>,
    shards: Seq<Shard>,
    iterator_type: ShardIteratorType,
)
    ensures
        requested_ids(requests_for(stream_arn, shards, iterator_type)) == shard_ids(shards),
{
    let requests = requests_for(stream_arn, shards, iterator_type);
    assert(requests.map_values(|request: ShardIteratorRequestView| request.shard_id)
        =~= shards.map_values(|shard: Shard| shard@.id));
}

/// Whether the shard of an id was read before the event at `i`.
pub open spec fn was_read(
    start: ProducerView,
    events: Seq<Event>,
    i: nat,
    id: Seq<char>,
) -> bool {
    exists|j: nat| j < i && reads(#[trigger] action_at(start, events, j), id)
}

/// A step adds to the seen ids those of the shards that it reads, and no others.
proof fn lemma_step_sees_what_it_reads(state: ProducerView, event: Event, id: Seq<char>)
    ensures
        state.step(event).0.seen_shard_ids.contains(id) <==> state.seen_shard_ids.contains(id)
            || reads(state.step(event).1, id),
{
}

/// A shard counts as seen exactly if it was read.
pub proof fn law_seen_is_read(
    table_name: Seq<char>,
    interval: Option<Duration>,
    iterator_type: ShardIteratorType,
    events: Seq<Event>,
    i: nat,
    id: Seq<char>,
)
    ensures
        ({
            let start = ProducerView::new(table_name, interval, iterator_type);
            state_at(start, events, i).seen_shard_ids.contains(id) <==> was_read(
                start,
                events,
                i,
                id,
            )
        }),
    decreases i,
{
    let start = ProducerView::new(table_name, interval, iterator_type);
    if i > 0 {
        let before = (i - 1) as nat;
        law_seen_is_read(table_name, interval, iterator_type, events, before, id);
        lemma_step_sees_what_it_reads(
            state_at(start, events, before),
            events[before as int],
            id,
        );
        if was_read(start, events, before, id) {
            let j = choose|j: nat| j < before && reads(#[trigger] action_at(start, events, j), id);
            assert(j < i && reads(action_at(start, events, j), id));
        }
        if reads(action_at(start, events, before), id) {
            assert(before < i);
        }
    }
}

/// Polling never forgets that a shard was seen.
pub proof fn law_seen_ids_grow(start: ProducerView, events: Seq<Event>, i: nat, j: nat)
    requires
        i <= j,
    ensures
        state_at(start, events, i).seen_shard_ids.subset_of(
            state_at(start, events, j).seen_shard_ids,
        ),
    decreases j,
{
    if i < j {
        law_seen_ids_grow(start, events, i, (j - 1) as nat);
    }
}

/// The ids of the unseen shards are those of the shards that are not seen.
proof fn lemma_unseen_ids(shards: Seq<Shard>, seen: Set<Seq<char>>, id: Seq<char>)
    ensures
        shard_ids(unseen(shards, seen)).contains(id) <==> shard_ids(shards).contains(id)
            && !seen.contains(id),
{
    let is_unseen = |shard: Shard| !seen.contains(shard@.id);
    let picked = unseen(shards, seen);
    let ids = |shard: Shard| shard@.id;
    if shard_ids(picked).contains(id) {
        let at = picked.map_values(ids).index_of(id);
        shards.lemma_filter_pred(is_unseen, at);
        assert(picked.contains(picked[at]));
        shards.lemma_filter_contains_rev(is_unseen, picked[at]);
        let from = shards.index_of(picked[at]);
        assert(shards.map_values(ids)[from] == id);
    }
    if shard_ids(shards).contains(id) && !seen.contains(id) {
        let from = shards.map_values(ids).index_of(id);
        shards.lemma_filter_contains(is_unseen, from);
        let at = picked.index_of(shards[from]);
        assert(picked.map_values(ids)[at] == id);
    }
}

/// When the shards are listed again, exactly those are opened that were never
/// read. So a shard that could not be opened is tried again in the next round.
pub proof fn law_exactly_the_unread_shards_are_opened(
    table_name: Seq<char>,
    interval: Option<Duration>,
    iterator_type: ShardIteratorType,
    events: Seq<Event>,
    i: nat,
    listed: Vec<Shard>,
    id: Seq<char>,
)
    requires
        state_at(
            ProducerView::new(table_name, interval, iterator_type),
            events,
            i,
        ).phase is Shards,
        events[i as int] == Event::AllShards(Ok(listed)),
    ensures
        ({
            let start = ProducerView::new(table_name, interval, iterator_type);
            opens(action_at(start, events, i), id) <==> shard_ids(listed@).contains(id)
                && !was_read(start, events, i, id)
        }),
{
    let start = ProducerView::new(table_name, interval, iterator_type);
    law_seen_is_read(table_name, interval, iterator_type, events, i, id);
    let state = state_at(start, events, i);
    lemma_unseen_ids(listed@, state.seen_shard_ids, id);
    lemma_requested_ids(
        state.stream_arn,
        unseen(listed@, state.seen_shard_ids),
        ShardIteratorType::TrimHorizon,
    );
}

/// Once a stream is open it stays so.
proof fn lemma_opening_is_over(start: ProducerView, events: Seq<Event>, i: nat, j: nat)
    requires
        i <= j,
        !is_opening(state_at(start, events, i).phase),
    ensures
        !is_opening(state_at(start, events, j).phase),
    decreases j,
{
    if i < j {
        lemma_opening_is_over(start, events, i, (j - 1) as nat);
    }
}

/// A shard that was read is never opened again, so no record is read twice
/// because its shard was.
pub proof fn law_read_shard_is_not_opened_again(
    start: ProducerView,
    events: Seq<Event>,
    i: nat,
    j: nat,
    id: Seq<char>,
)
    requires
        i < j,
        reads(action_at(start, events, i), id),
    ensures
        !opens(action_at(start, events, j), id),
{
    let state = state_at(start, events, j);
    lemma_step_sees_what_it_reads(state_at(start, events, i), events[i as int], id);
    law_seen_ids_grow(start, events, i + 1, j);
    assert(state.seen_shard_ids.contains(id));
    assert(!is_opening(state_at(start, events, i + 1).phase));
    lemma_opening_is_over(start, events, i + 1, j);
    if opens(action_at(start, events, j), id) {
        match events[j as int] {
            Event::AllShards(Ok(listed)) => {
                lemma_unseen_ids(listed@, state.seen_shard_ids, id);
                lemma_requested_ids(
                    state.stream_arn,
                    unseen(listed@, state.seen_shard_ids),
                    ShardIteratorType::TrimHorizon,
                );
            },
            _ => {},
        }
    }
}

/// Shards are opened at the position that the stream starts at until the stream
/// is open, and from their oldest record behind that.
pub proof fn law_new_shards_are_read_from_their_start(
    table_name: Seq<char>,
    interval: Option<Duration>,
    iterator_type: ShardIteratorType,
    events: Seq<Event>,
    i: nat,
)
    ensures
        ({
            let start = ProducerView::new(table_name, interval, iterator_type);
            action_at(start, events, i) matches ActionView::GetShardIterators { requests, .. }
                ==> forall|k: int|
                0 <= k < requests.len() ==> (#[trigger] requests[k]).iterator_type
                    == if is_opening(state_at(start, events, i).phase) {
                    iterator_type
                } else {
                    ShardIteratorType::TrimHorizon
                }
        }),
{
    lemma_start_position_is_kept(table_name, interval, iterator_type, events, i);
}

/// The position that the stream starts at is kept until the shards are opened.
proof fn lemma_start_position_is_kept(
    table_name: Seq<char>,
    interval: Option<Duration>,
    iterator_type: ShardIteratorType,
    events: Seq<Event>,
    i: nat,
)
    ensures
        match state_at(
            ProducerView::new(table_name, interval, iterator_type),
            events,
            i,
        ).phase {
            PhaseView::Idle(position) => position == iterator_type,
            PhaseView::StreamArn(position) => position == iterator_type,
            PhaseView::InitialShards(position) => position == iterator_type,
            _ => true,
        },
    decreases i,
{
    if i > 0 {
        lemma_start_position_is_kept(
            table_name,
            interval,
            iterator_type,
            events,
            (i - 1) as nat,
        );
    }
}

/// What holds of every state that polling reaches: the shards of the next round
/// are at hand between two rounds, and only results worth sending are pending.
pub open spec fn is_sound(state: ProducerView) -> bool {
    match state.phase {
        PhaseView::Initialized => state.shards is Some,
        PhaseView::CloseCheck { .. } => state.shards is Some,
        PhaseView::Sleeping => state.shards is Some,
        PhaseView::Sending { pending } => {
            &&& state.shards is Some
            &&& forall|k: int| 0 <= k < pending.len() ==> is_worth_sending(#[trigger] pending[k])
        },
        _ => true,
    }
}

proof fn lemma_step_is_sound(state: ProducerView, event: Event)
    requires
        is_sound(state),
    ensures
        is_sound(state.step(event).0),
        state.step(event).1 matches ActionView::Send(result) ==> is_worth_sending(result),
{
    let is_worth = |result: StreamResult| is_worth_sending(result);
    match (state.phase, event) {
        (PhaseView::CloseCheck { results }, Event::ShouldClose(_)) => {
            let picked = worth_sending(results);
            assert forall|k: int| 0 <= k < picked.len() implies is_worth_sending(
                #[trigger] picked[k],
            ) by {
                results.lemma_filter_pred(is_worth, k);
            }
        },
        (PhaseView::Sending { pending }, Event::Sent(_)) => {
            if pending.len() > 0 {
                assert(is_worth_sending(pending[0]));
            }
        },
        _ => {},
    }
}

/// Every state that polling reaches is sound.
pub proof fn law_states_are_sound(
    table_name: Seq<char>,
    interval: Option<Duration>,
    iterator_type: ShardIteratorType,
    events: Seq<Event>,
    i: nat,
)
    ensures
        is_sound(state_at(ProducerView::new(table_name, interval, iterator_type), events, i)),
    decreases i,
{
    if i > 0 {
        let start = ProducerView::new(table_name, interval, iterator_type);
        law_states_are_sound(table_name, interval, iterator_type, events, (i - 1) as nat);
        lemma_step_is_sound(state_at(start, events, (i - 1) as nat), events[i - 1]);
    }
}

/// The consumer is never sent an empty list of records.
pub proof fn law_only_results_worth_sending_are_sent(
    table_name: Seq<char>,
    interval: Option<Duration>,
    iterator_type: ShardIteratorType,
    events: Seq<Event>,
    i: nat,
)
    ensures
        action_at(
            ProducerView::new(table_name, interval, iterator_type),
            events,
            i,
        ) matches ActionView::Send(result) ==> is_worth_sending(result),
{
    let start = ProducerView::new(table_name, interval, iterator_type);
    law_states_are_sound(table_name, interval, iterator_type, events, i);
    lemma_step_is_sound(state_at(start, events, i), events[i as int]);
}

/// The consumer is told that the stream is open before any shard is read.
pub proof fn law_init_is_sent_before_reading(
    table_name: Seq<char>,
    interval: Option<Duration>,
    iterator_type: ShardIteratorType,
    events: Seq<Event>,
    i: nat,
)
    requires
        action_at(
            ProducerView::new(table_name, interval, iterator_type),
            events,
            i,
        ) is GetRecords,
    ensures
        exists|j: nat|
            j < i && #[trigger] action_at(
                ProducerView::new(table_name, interval, iterator_type),
                events,
                j,
            ) is SendInit,
{
    lemma_init_was_sent(table_name, interval, iterator_type, events, i);
}

/// Whether the consumer was told that the stream is open.
spec fn is_init_sent(phase: PhaseView) -> bool {
    !is_opening(phase) && !(phase is Reporting) && !(phase is Stopped)
}

proof fn lemma_init_was_sent(
    table_name: Seq<char>,
    interval: Option<Duration>,
    iterator_type: ShardIteratorType,
    events: Seq<Event>,
    i: nat,
)
    ensures
        ({
            let start = ProducerView::new(table_name, interval, iterator_type);
            is_init_sent(state_at(start, events, i).phase) ==> exists|j: nat|
                j < i && #[trigger] action_at(start, events, j) is SendInit
        }),
    decreases i,
{
    if i > 0 {
        let start = ProducerView::new(table_name, interval, iterator_type);
        let before = (i - 1) as nat;
        lemma_init_was_sent(table_name, interval, iterator_type, events, before);
        if is_init_sent(state_at(start, events, i).phase) {
            if is_init_sent(state_at(start, events, before).phase) {
                let j = choose|j: nat|
                    j < before && #[trigger] action_at(start, events, j) is SendInit;
                assert(j < i && action_at(start, events, j) is SendInit);
            } else {
                assert(action_at(start, events, before) is SendInit);
            }
        }
    }
}

/// The consumer is told once that the stream is open.
pub proof fn law_init_is_sent_once(start: ProducerView, events: Seq<Event>, i: nat, j: nat)
    requires
        i < j,
        action_at(start, events, i) is SendInit,
    ensures
        !(action_at(start, events, j) is SendInit),
{
    assert(!is_opening(state_at(start, events, i + 1).phase));
    lemma_opening_is_over(start, events, i + 1, j);
}

/// Polling that stopped does nothing more, whatever it is told.
pub proof fn law_stopped_for_good(start: ProducerView, events: Seq<Event>, i: nat, j: nat)
    requires
        i <= j,
        action_at(start, events, i) is Stop,
    ensures
        action_at(start, events, j) is Stop,
        state_at(start, events, j + 1).phase is Stopped,
    decreases j,
{
    if i < j {
        law_stopped_for_good(start, events, i, (j - 1) as nat);
    }
}

/// Whether a state waits for an event.
pub open spec fn waits_for(state: ProducerView, event: Event) -> bool {
    match state.phase {
        PhaseView::Idle(_) => event is Begin,
        PhaseView::StreamArn(_) => event is StreamArn,
        PhaseView::InitialShards(_) => event is AllShards,
        PhaseView::InitialIterators => event is ShardIterators,
        PhaseView::Initialized => event is InitSent,
        PhaseView::Records => event is Records,
        PhaseView::Shards { .. } => event is AllShards,
        PhaseView::Iterators { .. } => event is ShardIterators,
        PhaseView::CloseCheck { .. } => event is ShouldClose,
        PhaseView::Sending { .. } => event is Sent,
        PhaseView::Sleeping => event is Slept,
        PhaseView::Reporting => event is Sent,
        PhaseView::Stopped => false,
    }
}

/// Polling stops for these reasons and no others: the consumer asked to close or
/// no longer listens, an error was reported, or something came that was not
/// waited for.
pub proof fn law_polling_stops_for_a_reason(state: ProducerView, event: Event)
    ensures
        state.step(event).1 is Stop <==> {
            ||| !waits_for(state, event)
            ||| event == Event::ShouldClose(true)
            ||| event == Event::Sent(false)
            ||| state.phase is Reporting
        },
{
}

/// What is asked for is what is waited for: every action but the last has its
/// outcome as the event that is waited for next.
pub proof fn law_actions_ask_for_what_is_waited_for(
    state: ProducerView,
    event: Event,
    outcome: Event,
)
    ensures
        waits_for(state.step(event).0, outcome) <==> match state.step(event).1 {
            ActionView::GetStreamArn { .. } => outcome is StreamArn,
            ActionView::GetAllShards { .. } => outcome is AllShards,
            ActionView::GetShardIterators { .. } => outcome is ShardIterators,
            ActionView::SendInit => outcome is InitSent,
            ActionView::GetRecords { .. } => outcome is Records,
            ActionView::CheckClose => outcome is ShouldClose,
            ActionView::Send(_) => outcome is Sent,
            ActionView::Sleep(_) => outcome is Slept,
            ActionView::Stop => false,
        },
{
}

/// An error that keeps the stream from being found or its shards from being
/// listed is sent to the consumer, and is the last thing that happens. Results
/// that were not sent by then are lost.
pub proof fn law_error_is_the_last_thing_sent(
    state: ProducerView,
    events: Seq<Event>,
    error: Error,
    i: nat,
)
    requires
        events.len() > 0,
        waits_for(state, events[0]),
        events[0] == Event::StreamArn(Err(error)) || events[0] == Event::AllShards(Err(error)),
        i > 0,
    ensures
        action_at(state, events, 0) == ActionView::Send(Err(error)),
        action_at(state, events, i) is Stop,
{
    reveal_with_fuel(state_at, 3);
    assert(state_at(state, events, 1).phase is Reporting);
    assert(action_at(state, events, 1) is Stop);
    law_stopped_for_good(state, events, 1, i);
}

/// Once the consumer's wish to close is seen, nothing more is sent, not even the
/// results of the round.
pub proof fn law_closing_is_the_end(state: ProducerView, events: Seq<Event>, i: nat)
    requires
        events.len() > 0,
        events[0] == Event::ShouldClose(true),
    ensures
        action_at(state, events, i) is Stop,
{
    reveal_with_fuel(state_at, 2);
    assert(action_at(state, events, 0) is Stop);
    law_stopped_for_good(state, events, 0, i);
}

/// Once the consumer no longer listens, nothing more is sent.
pub proof fn law_nothing_is_sent_to_no_one(state: ProducerView, events: Seq<Event>, i: nat)
    requires
        events.len() > 0,
        events[0] == Event::Sent(false),
    ensures
        action_at(state, events, i) is Stop,
{
    reveal_with_fuel(state_at, 2);
    assert(action_at(state, events, 0) is Stop);
    law_stopped_for_good(state, events, 0, i);
}

/// How a round ends that has nothing left to send.
pub open spec fn round_end(state: ProducerView) -> ActionView {
    match state.interval {
        Some(duration) => ActionView::Sleep(duration),
        None => state.look_into().1,
    }
}

proof fn lemma_pending_is_sent(
    state: ProducerView,
    pending: Seq<StreamResult>,
    events: Seq<Event>,
    sent: nat,
)
    requires
        state.phase is CloseCheck || state.phase is Sending,
        events.len() > pending.len(),
        state.step(events[0]) == state.send(pending),
        forall|k: int| 0 < k <= pending.len() ==> #[trigger] events[k] == Event::Sent(true),
        sent <= pending.len(),
    ensures
        sent < pending.len() ==> action_at(state, events, sent) == ActionView::Send(
            pending[sent as int],
        ),
        sent == pending.len() ==> action_at(state, events, sent) == round_end(state),
        sent > 0 ==> state_at(state, events, sent) == state.waiting_for(
            PhaseView::Sending { pending: pending.skip(sent as int) },
        ),
    decreases sent,
{
    if sent > 0 {
        lemma_pending_is_sent(state, pending, events, (sent - 1) as nat);
        assert(events[sent as int] == Event::Sent(true));
        if sent == 1 {
            assert(pending.skip(1) =~= pending.drop_first());
        } else {
            assert(events[sent - 1] == Event::Sent(true));
            assert(pending.skip(sent - 1).drop_first() =~= pending.skip(sent as int));
            assert(pending.skip(sent - 1).first() == pending[sent - 1]);
        }
        let now = state_at(state, events, sent);
        assert(now == state.waiting_for(
            PhaseView::Sending { pending: pending.skip(sent as int) },
        ));
        if sent < pending.len() {
            assert(pending.skip(sent as int).first() == pending[sent as int]);
        }
    }
}

/// As long as the consumer listens, all results of a round that are worth
/// sending are sent, in the order in which they came, and the round ends behind
/// the last.
pub proof fn law_results_are_sent_in_order(
    state: ProducerView,
    round: Seq<StreamResult>,
    events: Seq<Event>,
    i: nat,
)
    requires
        state.phase == (PhaseView::CloseCheck { results: round }),
        events.len() > worth_sending(round).len(),
        events[0] == Event::ShouldClose(false),
        forall|k: int|
            0 < k <= worth_sending(round).len() ==> #[trigger] events[k] == Event::Sent(true),
        i <= worth_sending(round).len(),
    ensures
        i < worth_sending(round).len() ==> action_at(state, events, i) == ActionView::Send(
            worth_sending(round)[i as int],
        ),
        i == worth_sending(round).len() ==> action_at(state, events, i) == round_end(state),
{
    lemma_pending_is_sent(state, worth_sending(round), events, i);
}

proof fn lemma_interval_is_kept(start: ProducerView, events: Seq<Event>, i: nat)
    ensures
        state_at(start, events, i).interval == start.interval,
    decreases i,
{
    if i > 0 {
        lemma_interval_is_kept(start, events, (i - 1) as nat);
    }
}

/// Every pause is as long as the interval: where there is none, polling never
/// pauses.
pub proof fn law_pauses_last_the_interval(start: ProducerView, events: Seq<Event>, i: nat)
    ensures
        action_at(start, events, i) matches ActionView::Sleep(duration) ==> start.interval == Some(
            duration,
        ),
{
    lemma_interval_is_kept(start, events, i);
}

/// Whether the first round has begun.
spec fn is_polling(phase: PhaseView) -> bool {
    !is_opening(phase) && !(phase is Initialized)
}

proof fn lemma_polling_goes_on(start: ProducerView, events: Seq<Event>, i: nat, j: nat)
    requires
        i <= j,
        is_polling(state_at(start, events, i).phase),
    ensures
        is_polling(state_at(start, events, j).phase),
    decreases j,
{
    if i < j {
        lemma_polling_goes_on(start, events, i, (j - 1) as nat);
    }
}

proof fn lemma_round_was_begun(
    table_name: Seq<char>,
    interval: Option<Duration>,
    iterator_type: ShardIteratorType,
    events: Seq<Event>,
    i: nat,
)
    ensures
        ({
            let start = ProducerView::new(table_name, interval, iterator_type);
            let phase = state_at(start, events, i).phase;
            is_polling(phase) && !(phase is Reporting) && !(phase is Stopped) ==> exists|j: nat|
                j < i && #[trigger] action_at(start, events, j) is GetRecords
        }),
    decreases i,
{
    if i > 0 {
        let start = ProducerView::new(table_name, interval, iterator_type);
        let before = (i - 1) as nat;
        lemma_round_was_begun(table_name, interval, iterator_type, events, before);
        let phase = state_at(start, events, i).phase;
        if is_polling(phase) && !(phase is Reporting) && !(phase is Stopped) {
            if is_polling(state_at(start, events, before).phase) {
                let j = choose|j: nat|
                    j < before && #[trigger] action_at(start, events, j) is GetRecords;
                assert(j < i && action_at(start, events, j) is GetRecords);
            } else {
                assert(action_at(start, events, before) is GetRecords);
            }
        }
    }
}

/// There is no pause before the first round.
pub proof fn law_no_pause_before_the_first_round(
    table_name: Seq<char>,
    interval: Option<Duration>,
    iterator_type: ShardIteratorType,
    events: Seq<Event>,
    i: nat,
)
    requires
        action_at(
            ProducerView::new(table_name, interval, iterator_type),
            events,
            i,
        ) is Sleep,
    ensures
        exists|j: nat|
            j < i && #[trigger] action_at(
                ProducerView::new(table_name, interval, iterator_type),
                events,
                j,
            ) is GetRecords,
{
    lemma_round_was_begun(table_name, interval, iterator_type, events, i);
}

/// Between a round and the next one there is exactly one pause, of the length of
/// the interval, and it is the last thing before the next round: all results of
/// the round are sent before it. Where there is no interval there is no pause.
pub proof fn law_one_pause_between_rounds(
    start: ProducerView,
    events: Seq<Event>,
    i: nat,
    j: nat,
)
    requires
        i < j,
        action_at(start, events, i) is GetRecords,
        action_at(start, events, j) is GetRecords,
        forall|k: nat| i < k < j ==> !(#[trigger] action_at(start, events, k) is GetRecords),
    ensures
        match start.interval {
            Some(duration) => {
                &&& i < j - 1
                &&& action_at(start, events, (j - 1) as nat) == ActionView::Sleep(duration)
                &&& forall|k: nat|
                    i < k < j - 1 ==> !(#[trigger] action_at(start, events, k) is Sleep)
            },
            None => forall|k: nat|
                i < k < j ==> !(#[trigger] action_at(start, events, k) is Sleep),
        },
{
    lemma_interval_is_kept(start, events, j);
    lemma_interval_is_kept(start, events, (j - 1) as nat);
    lemma_polling_goes_on(start, events, i + 1, j);
    assert forall|k: nat|
        i < k < j && #[trigger] action_at(start, events, k) is Sleep implies start.interval is Some
        && k == j - 1 by {
        law_pauses_last_the_interval(start, events, k);
        if k < j - 1 {
            assert(state_at(start, events, k + 1).phase is Sleeping);
            assert(!(action_at(start, events, k + 1) is GetRecords));
            law_stopped_for_good(start, events, k + 1, j);
        }
    }
    if start.interval is Some {
        assert(state_at(start, events, j).phase is Sleeping);
    }
}

/// A pause ends with the next round.
pub proof fn law_pause_ends_with_the_next_round(start: ProducerView, events: Seq<Event>, i: nat)
    requires
        action_at(start, events, i) is Sleep,
        events[i as int + 1] == Event::Slept,
    ensures
        action_at(start, events, i + 1) is GetRecords,
{
}

/// The opening of a stream that nothing disturbs: the stream of the table is
/// asked for, its shards are listed, each listed shard is asked for by one
/// request, in the stream that was found and at the position that the stream
/// starts at, and those that open are the shards of the first round. No shard is
/// read before that.
pub proof fn law_undisturbed_opening(
    table_name: Seq<char>,
    interval: Option<Duration>,
    iterator_type: ShardIteratorType,
    found: String,
    listed: Vec<Shard>,
    outcomes: Vec<Result<Option<Shard>, Error>>,
    events: Seq<Event>,
)
    requires
        events.len() >= 5,
        events[0] == Event::Begin,
        events[1] == Event::StreamArn(Ok(found)),
        events[2] == Event::AllShards(Ok(listed)),
        events[3] == Event::ShardIterators(outcomes),
        events[4] == Event::InitSent,
    ensures
        ({
            let start = ProducerView::new(table_name, interval, iterator_type);
            &&& action_at(start, events, 0) == (ActionView::GetStreamArn { table_name })
            &&& action_at(start, events, 1) == (ActionView::GetAllShards { stream_arn: found@ })
            &&& action_at(start, events, 2) == (ActionView::GetShardIterators {
                requests: requests_for(found@, listed@, iterator_type),
                buffer: channel_capacity(listed@.len()),
            })
            &&& action_at(start, events, 3) is SendInit
            &&& action_at(start, events, 4) == (ActionView::GetRecords {
                shards: opened(outcomes@),
                buffer: channel_capacity(opened(outcomes@).len()),
            })
        }),
{
    reveal_with_fuel(state_at, 6);
}

/// Each shard to open is asked for by exactly one request, which holds its id,
/// the id of its parent and no sequence number: there are as many requests as
/// shards, and the one at each place is for the shard at that place. While the
/// stream is being opened these are all listed shards, at the position that the
/// stream starts at; later they are the unseen ones, from their start.
pub proof fn law_each_shard_is_asked_for_once(
    state: ProducerView,
    event: Event,
    listed: Vec<Shard>,
    i: int,
)
    requires
        event == Event::AllShards(Ok(listed)),
        waits_for(state, event),
    ensures
        ({
            let shards = if state.phase is Shards {
                unseen(listed@, state.seen_shard_ids)
            } else {
                listed@
            };
            &&& state.step(event).1 is GetShardIterators
            &&& state.step(event).1->requests.len() == shards.len()
            &&& 0 <= i < shards.len() ==> {
                let request = state.step(event).1->requests[i];
                &&& request.stream_arn == state.stream_arn
                &&& request.shard_id == shards[i]@.id
                &&& request.parent_shard_id == shards[i]@.parent_shard_id
                &&& request.sequence_number is None
                &&& state.phase is Shards ==> request.iterator_type
                    == ShardIteratorType::TrimHorizon
                &&& state.phase matches PhaseView::InitialShards(position)
                    ==> request.iterator_type == position
            }
        }),
{
}

/// A round that nothing disturbs reads its shards, lists the shards of the
/// stream, opens those that are unseen, each by one request, and keeps for the
/// next round the shards that can be read again, followed by those that were
/// opened; the results it got are those at hand when it comes to sending.
pub proof fn law_undisturbed_round(
    state: ProducerView,
    received: Vec<(Option<Shard>, StreamResult)>,
    listed: Vec<Shard>,
    outcomes: Vec<Result<Option<Shard>, Error>>,
    events: Seq<Event>,
)
    requires
        state.phase is Records,
        events.len() >= 3,
        events[0] == Event::Records(received),
        events[1] == Event::AllShards(Ok(listed)),
        events[2] == Event::ShardIterators(outcomes),
    ensures
        action_at(state, events, 0) == (ActionView::GetAllShards { stream_arn: state.stream_arn }),
        action_at(state, events, 1) matches ActionView::GetShardIterators { requests, .. }
            && requests == requests_for(
            state.stream_arn,
            unseen(listed@, state.seen_shard_ids),
            ShardIteratorType::TrimHorizon,
        ),
        action_at(state, events, 2) is CheckClose,
        state_at(state, events, 3) == (ProducerView {
            shards: Some(kept(received@) + opened(outcomes@)),
            phase: PhaseView::CloseCheck { results: results(received@) },
            ..state
        }),
{
    reveal_with_fuel(state_at, 4);
}

/// The table and the pause never change, and neither does the stream once it is
/// known.
pub proof fn law_requests_keep_their_target(
    start: ProducerView,
    events: Seq<Event>,
    i: nat,
    j: nat,
)
    requires
        i <= j,
    ensures
        state_at(start, events, j).table_name == state_at(start, events, i).table_name,
        state_at(start, events, j).interval == state_at(start, events, i).interval,
        !(state_at(start, events, i).phase is Idle || state_at(
            start,
            events,
            i,
        ).phase is StreamArn) ==> state_at(start, events, j).stream_arn == state_at(
            start,
            events,
            i,
        ).stream_arn && !(state_at(start, events, j).phase is Idle || state_at(
            start,
            events,
            j,
        ).phase is StreamArn),
    decreases j,
{
    if i < j {
        law_requests_keep_their_target(start, events, i, (j - 1) as nat);
    }
}

/// Requests name the stream that was found.
pub proof fn law_requests_name_the_stream(
    start: ProducerView,
    events: Seq<Event>,
    i: nat,
    j: nat,
    found: String,
)
    requires
        i <= j,
        state_at(start, events, i).phase is StreamArn,
        events[i as int] == Event::StreamArn(Ok(found)),
    ensures
        action_at(start, events, j) matches ActionView::GetAllShards { stream_arn } ==> stream_arn
            == found@,
        action_at(start, events, j) matches ActionView::GetShardIterators { requests, .. }
            ==> forall|k: int|
            0 <= k < requests.len() ==> (#[trigger] requests[k]).stream_arn == found@,
{
    if i < j {
        assert(state_at(start, events, i + 1).stream_arn == found@);
        law_requests_keep_their_target(start, events, i + 1, j);
    }
}

/// The channels that collect outcomes can be made, and hold an outcome of each
/// shard: they have room for exactly as many, and for one where there is none.
pub proof fn law_channels_have_room(state: ProducerView, event: Event)
    ensures
        state.step(event).1 matches ActionView::GetShardIterators { requests, buffer }
            ==> buffer >= 1 && buffer >= requests.len() && (buffer == requests.len() || buffer == 1),
        state.step(event).1 matches ActionView::GetRecords { shards, buffer } ==> buffer >= 1
            && buffer >= shards.len() && (buffer == shards.len() || buffer == 1),
{
}

/// Whether all shards have an iterator to be read with.
pub open spec fn have_iterators(shards: Seq<Shard>) -> bool {
    forall|k: int| 0 <= k < shards.len() ==> (#[trigger] shards[k])@.iterator is Some
}

/// Whether all shards that an event hands over have an iterator.
pub open spec fn hands_over_open_shards(event: Event) -> bool {
    match event {
        Event::ShardIterators(outcomes) => have_iterators(opened(outcomes@)),
        Event::Records(received) => have_iterators(kept(received@)),
        _ => true,
    }
}

/// Whether the outcome of opening a shard comes of an answer to the request.
pub open spec fn comes_of_opening(outcome: Result<Option<Shard>, Error>) -> bool {
    exists|
        iterator: Result<Option<String>, Error>,
        shard_id: Seq<char>,
        parent_shard_id: Option<Seq<char>>,
    | #[trigger]
        is_opened(outcome, iterator, shard_id, parent_shard_id)
}

/// Whether the outcome of reading a shard comes of an answer to the request.
pub open spec fn comes_of_reading(outcome: (Option<Shard>, StreamResult)) -> bool {
    exists|
        output: Result<GetRecordsOutput, Error>,
        page: Result<RecordsPage, Error>,
        shard: ShardView,
    | #[trigger]
        is_read(output, page, shard) && outcome == spec_read_outcome(output)
}

/// Shards that are opened by the answers to requests have an iterator.
pub proof fn law_opened_shards_have_iterators(outcomes: Seq<Result<Option<Shard>, Error>>)
    requires
        forall|k: int| 0 <= k < outcomes.len() ==> comes_of_opening(#[trigger] outcomes[k]),
    ensures
        have_iterators(opened(outcomes)),
    decreases outcomes.len(),
{
    if outcomes.len() > 0 {
        let before = outcomes.drop_last();
        assert forall|k: int| 0 <= k < before.len() implies comes_of_opening(
            #[trigger] before[k],
        ) by {
            assert(comes_of_opening(outcomes[k]));
        }
        law_opened_shards_have_iterators(before);
        assert(comes_of_opening(outcomes[outcomes.len() - 1]));
    }
}

/// Shards that the answers to reads leave to be read again have an iterator.
pub proof fn law_kept_shards_have_iterators(received: Seq<(Option<Shard>, StreamResult)>)
    requires
        forall|k: int| 0 <= k < received.len() ==> comes_of_reading(#[trigger] received[k]),
    ensures
        have_iterators(kept(received)),
    decreases received.len(),
{
    if received.len() > 0 {
        let before = received.drop_last();
        assert forall|k: int| 0 <= k < before.len() implies comes_of_reading(
            #[trigger] before[k],
        ) by {
            assert(comes_of_reading(received[k]));
        }
        law_kept_shards_have_iterators(before);
        assert(comes_of_reading(received[received.len() - 1]));
    }
}

/// Whether all shards at hand have an iterator.
spec fn holds_open_shards(state: ProducerView) -> bool {
    &&& state.shards matches Some(shards) ==> have_iterators(shards)
    &&& match state.phase {
        PhaseView::Shards { kept, .. } => have_iterators(kept),
        PhaseView::Iterators { kept, .. } => have_iterators(kept),
        _ => true,
    }
}

proof fn lemma_shards_at_hand_are_open(start: ProducerView, events: Seq<Event>, i: nat)
    requires
        holds_open_shards(start),
        i <= events.len(),
        forall|k: int| 0 <= k < i ==> hands_over_open_shards(#[trigger] events[k]),
    ensures
        holds_open_shards(state_at(start, events, i)),
    decreases i,
{
    if i > 0 {
        let before = state_at(start, events, (i - 1) as nat);
        let event = events[i - 1];
        lemma_shards_at_hand_are_open(start, events, (i - 1) as nat);
        assert(hands_over_open_shards(event));
        match (before.phase, event) {
            (PhaseView::Iterators { kept, .. }, Event::ShardIterators(outcomes)) => {
                let new = opened(outcomes@);
                assert forall|k: int| 0 <= k < (kept + new).len() implies (#[trigger] (kept
                    + new)[k])@.iterator is Some by {
                    if k < kept.len() {
                        assert(kept[k]@.iterator is Some);
                    } else {
                        assert(new[k - kept.len()]@.iterator is Some);
                    }
                }
            },
            _ => {},
        }
    }
}

/// Only shards with an iterator are read, as long as only such shards are handed
/// over.
pub proof fn law_only_open_shards_are_read(
    table_name: Seq<char>,
    interval: Option<Duration>,
    iterator_type: ShardIteratorType,
    events: Seq<Event>,
    i: nat,
)
    requires
        i < events.len(),
        forall|k: int| 0 <= k < i ==> hands_over_open_shards(#[trigger] events[k]),
    ensures
        action_at(
            ProducerView::new(table_name, interval, iterator_type),
            events,
            i,
        ) matches ActionView::GetRecords { shards, .. } ==> have_iterators(shards),
{
    let start = ProducerView::new(table_name, interval, iterator_type);
    lemma_shards_at_hand_are_open(start, events, i);
}

/// Whether no two shards have the same id.
pub open spec fn are_distinct(shards: Seq<Shard>) -> bool {
    forall|k: int, l: int|
        0 <= k < l < shards.len() ==> (#[trigger] shards[k])@.id != (#[trigger] shards[l])@.id
}

/// Whether the ids of shards are among others, each at most once.
pub open spec fn are_among(shards: Seq<Shard>, ids: Set<Seq<char>>) -> bool {
    are_distinct(shards) && shard_ids(shards).subset_of(ids)
}

/// Whether an event speaks of no other shards than the action before it asked
/// for, and of each at most once.
pub open spec fn speaks_of_what_was_asked(action: ActionView, event: Event) -> bool {
    match (action, event) {
        (
            ActionView::GetShardIterators { requests, .. },
            Event::ShardIterators(outcomes),
        ) => are_among(opened(outcomes@), requested_ids(requests)),
        (ActionView::GetRecords { shards, .. }, Event::Records(received)) => are_among(
            kept(received@),
            shard_ids(shards),
        ),
        _ => true,
    }
}

/// Whether the shards at hand are distinct, and the action before this state
/// asked for shards that keep them so.
spec fn holds_distinct_shards(state: ProducerView, last: ActionView) -> bool {
    &&& state.shards matches Some(shards) ==> are_distinct(shards)
    &&& match state.phase {
        PhaseView::InitialIterators => last is GetShardIterators,
        PhaseView::Records => last matches ActionView::GetRecords { shards, .. } && shard_ids(
            shards,
        ).subset_of(state.seen_shard_ids),
        PhaseView::Shards { kept, .. } => are_distinct(kept) && shard_ids(kept).subset_of(
            state.seen_shard_ids,
        ),
        PhaseView::Iterators { kept, .. } => {
            &&& are_distinct(kept)
            &&& shard_ids(kept).subset_of(state.seen_shard_ids)
            &&& last matches ActionView::GetShardIterators { requests, .. } && requested_ids(
                requests,
            ).disjoint(state.seen_shard_ids)
        },
        _ => true,
    }
}

proof fn lemma_shard_id_is_among_ids(shards: Seq<Shard>, k: int)
    requires
        0 <= k < shards.len(),
    ensures
        shard_ids(shards).contains(shards[k]@.id),
{
    let ids = |shard: Shard| shard@.id;
    assert(shards.map_values(ids)[k] == shards[k]@.id);
}

proof fn lemma_disjoint_shards_stay_distinct(old_shards: Seq<Shard>, new_shards: Seq<Shard>)
    requires
        are_distinct(old_shards),
        are_distinct(new_shards),
        shard_ids(old_shards).disjoint(shard_ids(new_shards)),
    ensures
        are_distinct(old_shards + new_shards),
{
    let all = old_shards + new_shards;
    assert forall|k: int, l: int| 0 <= k < l < all.len() implies (#[trigger] all[k])@.id != (
    #[trigger] all[l])@.id by {
        if l < old_shards.len() {
            assert(old_shards[k]@.id != old_shards[l]@.id);
        } else if k >= old_shards.len() {
            assert(new_shards[k - old_shards.len()]@.id != new_shards[l - old_shards.len()]@.id);
        } else {
            lemma_shard_id_is_among_ids(old_shards, k);
            lemma_shard_id_is_among_ids(new_shards, l - old_shards.len());
        }
    }
}

proof fn lemma_step_keeps_shards_distinct(state: ProducerView, last: ActionView, event: Event)
    requires
        holds_distinct_shards(state, last),
        speaks_of_what_was_asked(last, event),
    ensures
        holds_distinct_shards(state.step(event).0, state.step(event).1),
{
    match (state.phase, event) {
        (PhaseView::Shards { .. }, Event::AllShards(Ok(listed))) => {
            assert forall|id: Seq<char>| #[trigger]
                shard_ids(unseen(listed@, state.seen_shard_ids)).contains(
                    id,
                ) implies !state.seen_shard_ids.contains(id) by {
                lemma_unseen_ids(listed@, state.seen_shard_ids, id);
            }
            lemma_requested_ids(
                state.stream_arn,
                unseen(listed@, state.seen_shard_ids),
                ShardIteratorType::TrimHorizon,
            );
        },
        (PhaseView::Iterators { kept, .. }, Event::ShardIterators(outcomes)) => {
            lemma_disjoint_shards_stay_distinct(kept, opened(outcomes@));
        },
        _ => {},
    }
}

proof fn lemma_shards_at_hand_are_distinct(start: ProducerView, events: Seq<Event>, i: nat)
    requires
        start.phase is Idle,
        start.shards is None,
        i < events.len(),
        forall|k: nat|
            k < i ==> speaks_of_what_was_asked(
                #[trigger] action_at(start, events, k),
                events[k as int + 1],
            ),
    ensures
        holds_distinct_shards(state_at(start, events, i + 1), action_at(start, events, i)),
    decreases i,
{
    if i > 0 {
        lemma_shards_at_hand_are_distinct(start, events, (i - 1) as nat);
        assert(speaks_of_what_was_asked(
            action_at(start, events, (i - 1) as nat),
            events[i as int],
        ));
        lemma_step_keeps_shards_distinct(
            state_at(start, events, i),
            action_at(start, events, (i - 1) as nat),
            events[i as int],
        );
    } else {
        reveal_with_fuel(state_at, 2);
    }
}

/// No shard is read twice in the same round, as long as every outcome speaks of
/// what was asked for.
pub proof fn law_no_shard_is_read_twice_in_a_round(
    table_name: Seq<char>,
    interval: Option<Duration>,
    iterator_type: ShardIteratorType,
    events: Seq<Event>,
    i: nat,
)
    requires
        i < events.len(),
        forall|k: nat|
            k < i ==> speaks_of_what_was_asked(
                #[trigger] action_at(
                    ProducerView::new(table_name, interval, iterator_type),
                    events,
                    k,
                ),
                events[k as int + 1],
            ),
    ensures
        action_at(
            ProducerView::new(table_name, interval, iterator_type),
            events,
            i,
        ) matches ActionView::GetRecords { shards, .. } ==> are_distinct(shards),
{
    let start = ProducerView::new(table_name, interval, iterator_type);
    if i > 0 {
        lemma_shards_at_hand_are_distinct(start, events, (i - 1) as nat);
    }
}

} // verus!
