//! What the polling half asks for, and what it is told.

use crate::error::{Error, StreamResult};
use crate::types::lineages::Lineages;
use crate::types::request::{request_views, ShardIteratorRequest, ShardIteratorRequestView};
use crate::types::shard::Shard;
use std::time::Duration;
use vstd::prelude::*;

verus! {

/// The next piece of work of the polling half.
#[derive(Debug)]
pub enum Action {
    /// Ask for the ARN of the table's stream.
    GetStreamArn {
        /// The table.
        table_name: String,
    },
    /// List all shards of the stream.
    GetAllShards {
        /// The stream.
        stream_arn: String,
    },
    /// Open shards, all of them at once.
    GetShardIterators {
        /// The requests to perform, each of them once.
        requests: Vec<ShardIteratorRequest>,
        /// The capacity of the channel that collects the outcomes.
        buffer: usize,
    },
    /// Tell the consumer that the stream is open.
    SendInit,
    /// Read shards, each behind its parent.
    GetRecords {
        /// The shards to read.
        lineages: Lineages,
        /// The capacity of the channel that collects the outcomes.
        buffer: usize,
    },
    /// Find out whether the consumer asked to close the stream.
    CheckClose,
    /// Send a result to the consumer.
    Send(StreamResult),
    /// Wait before the next round.
    Sleep(Duration),
    /// Do nothing more.
    Stop,
}

/// The outcome of an [`Action`].
#[derive(Debug)]
pub enum Event {
    /// Polling starts.
    Begin,
    /// The outcome of [`Action::GetStreamArn`].
    StreamArn(Result<String, Error>),
    /// The outcome of [`Action::GetAllShards`].
    AllShards(Result<Vec<Shard>, Error>),
    /// The outcomes of [`Action::GetShardIterators`], in the order in which they
    /// came. A shard that is gone is `None`.
    ShardIterators(Vec<Result<Option<Shard>, Error>>),
    /// [`Action::SendInit`] is done.
    InitSent,
    /// The outcomes of [`Action::GetRecords`], in the order in which they came:
    /// the shard to read next time, if it can be read again, and the result.
    Records(Vec<(Option<Shard>, StreamResult)>),
    /// The outcome of [`Action::CheckClose`]: whether to close.
    ShouldClose(bool),
    /// The outcome of [`Action::Send`]: whether the consumer still listens.
    Sent(bool),
    /// [`Action::Sleep`] is done.
    Slept,
}

/// The contents of an [`Action`].
pub enum ActionView {
    /// See [`Action::GetStreamArn`].
    GetStreamArn {
        /// The table.
        table_name: Seq<char>,
    },
    /// See [`Action::GetAllShards`].
    GetAllShards {
        /// The stream.
        stream_arn: Seq<char>,
    },
    /// See [`Action::GetShardIterators`].
    GetShardIterators {
        /// The requests to perform, each of them once.
        requests: Seq<ShardIteratorRequestView>,
        /// The capacity of the channel that collects the outcomes.
        buffer: nat,
    },
    /// See [`Action::SendInit`].
    SendInit,
    /// See [`Action::GetRecords`].
    GetRecords {
        /// The shards to read.
        shards: Seq<Shard>,
        /// The capacity of the channel that collects the outcomes.
        buffer: nat,
    },
    /// See [`Action::CheckClose`].
    CheckClose,
    /// See [`Action::Send`].
    Send(StreamResult),
    /// See [`Action::Sleep`].
    Sleep(Duration),
    /// See [`Action::Stop`].
    Stop,
}

impl View for Action {
    type V = ActionView;

    open spec fn view(&self) -> ActionView {
        match self {
            Action::GetStreamArn { table_name } => ActionView::GetStreamArn {
                table_name: table_name@,
            },
            Action::GetAllShards { stream_arn } => ActionView::GetAllShards {
                stream_arn: stream_arn@,
            },
            Action::GetShardIterators { requests, buffer } => ActionView::GetShardIterators {
                requests: request_views(requests@),
                buffer: *buffer as nat,
            },
            Action::SendInit => ActionView::SendInit,
            Action::GetRecords { lineages, buffer } => ActionView::GetRecords {
                shards: lineages@,
                buffer: *buffer as nat,
            },
            Action::CheckClose => ActionView::CheckClose,
            Action::Send(result) => ActionView::Send(*result),
            Action::Sleep(duration) => ActionView::Sleep(*duration),
            Action::Stop => ActionView::Stop,
        }
    }
}

/// The contents of an action are what it holds: its kind, and all of its fields.
pub proof fn law_actions_hold_their_fields(action: Action)
    ensures
        action@ is GetStreamArn <==> action is GetStreamArn,
        action matches Action::GetStreamArn { table_name } ==> action@->table_name == table_name@,
        action@ is GetAllShards <==> action is GetAllShards,
        action matches Action::GetAllShards { stream_arn } ==> action@->stream_arn == stream_arn@,
        action@ is GetShardIterators <==> action is GetShardIterators,
        action matches Action::GetShardIterators { requests, buffer } ==> {
            &&& action@->requests.len() == requests@.len()
            &&& forall|k: int|
                0 <= k < requests@.len() ==> #[trigger] action@->requests[k] == requests@[k]@
            &&& action@->GetShardIterators_buffer == buffer
        },
        action@ is SendInit <==> action is SendInit,
        action@ is GetRecords <==> action is GetRecords,
        action matches Action::GetRecords { lineages, buffer } ==> action@->shards == lineages@
            && action@->GetRecords_buffer == buffer,
        action@ is CheckClose <==> action is CheckClose,
        action@ is Send <==> action is Send,
        action matches Action::Send(result) ==> action@->Send_0 == result,
        action@ is Sleep <==> action is Sleep,
        action matches Action::Sleep(duration) ==> action@->Sleep_0 == duration,
        action@ is Stop <==> action is Stop,
{
}

} // verus!
