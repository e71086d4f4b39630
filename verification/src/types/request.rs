//! The requests that list shards and that open them.

use crate::types::initial_interator_type::ShardIteratorType;
use crate::types::shard::{text, Shard, ShardView};
use vstd::prelude::*;

verus! {

/// One request for a page of the shards of a stream.
#[derive(Debug, Clone)]
pub struct ShardsRequest {
    /// The stream.
    pub stream_arn: String,
    /// The id behind which the page starts, unless it is the first one.
    pub exclusive_start_shard_id: Option<String>,
}

/// The contents of a [`ShardsRequest`].
pub struct ShardsRequestView {
    /// The stream.
    pub stream_arn: Seq<char>,
    /// The id behind which the page starts, unless it is the first one.
    pub exclusive_start_shard_id: Option<Seq<char>>,
}

impl View for ShardsRequest {
    type V = ShardsRequestView;

    open spec fn view(&self) -> ShardsRequestView {
        ShardsRequestView {
            stream_arn: self.stream_arn@,
            exclusive_start_shard_id: text(self.exclusive_start_shard_id),
        }
    }
}

/// One request for an iterator of one shard.
#[derive(Debug, Clone)]
pub struct ShardIteratorRequest {
    /// The stream.
    pub stream_arn: String,
    /// The shard to open.
    pub shard_id: String,
    /// The shard that it continues.
    pub parent_shard_id: Option<String>,
    /// Where to open it.
    pub iterator_type: ShardIteratorType,
    /// The record to open it at, for a position that is given by a record.
    pub sequence_number: Option<String>,
}

/// The contents of a [`ShardIteratorRequest`].
pub struct ShardIteratorRequestView {
    /// The stream.
    pub stream_arn: Seq<char>,
    /// The shard to open.
    pub shard_id: Seq<char>,
    /// The shard that it continues.
    pub parent_shard_id: Option<Seq<char>>,
    /// Where to open it.
    pub iterator_type: ShardIteratorType,
    /// The record to open it at, for a position that is given by a record.
    pub sequence_number: Option<Seq<char>>,
}

impl View for ShardIteratorRequest {
    type V = ShardIteratorRequestView;

    open spec fn view(&self) -> ShardIteratorRequestView {
        ShardIteratorRequestView {
            stream_arn: self.stream_arn@,
            shard_id: self.shard_id@,
            parent_shard_id: text(self.parent_shard_id),
            iterator_type: self.iterator_type,
            sequence_number: text(self.sequence_number),
        }
    }
}

/// The request that opens a shard: it names the stream, the shard and its parent,
/// and no record.
pub open spec fn request_for(
    stream_arn: Seq<char>,
    shard: ShardView,
    iterator_type: ShardIteratorType,
) -> ShardIteratorRequestView {
    ShardIteratorRequestView {
        stream_arn,
        shard_id: shard.id,
        parent_shard_id: shard.parent_shard_id,
        iterator_type,
        sequence_number: None,
    }
}

/// The requests that open shards: one for each, in their order.
pub open spec fn requests_for(
    stream_arn: Seq<char>,
    shards: Seq<Shard>,
    iterator_type: ShardIteratorType,
) -> Seq<ShardIteratorRequestView> {
    shards.map_values(|shard: Shard| request_for(stream_arn, shard@, iterator_type))
}

/// The contents of a list of requests.
pub open spec fn request_views(
    requests: Seq<ShardIteratorRequest>,
) -> Seq<ShardIteratorRequestView> {
    requests.map_values(|request: ShardIteratorRequest| request@)
}

/// Makes the requests that open shards: for each shard exactly one, with its id,
/// the id of its parent, the position to open it at, and no sequence number.
pub fn shard_iterator_requests(
    stream_arn: &String,
    shards: Vec<Shard>,
    iterator_type: ShardIteratorType,
) -> (requests: Vec<ShardIteratorRequest>)
    ensures
        request_views(requests@) == requests_for(stream_arn@, shards@, iterator_type),
        requests@.len() == shards@.len(),
        forall|i: int|
            0 <= i < shards@.len() ==> (#[trigger] requests@[i])@ == (ShardIteratorRequestView {
                stream_arn: stream_arn@,
                shard_id: shards@[i]@.id,
                parent_shard_id: shards@[i]@.parent_shard_id,
                iterator_type,
                sequence_number: None,
            }),
{
    let mut requests: Vec<ShardIteratorRequest> = Vec::new();
    for i in 0..shards.len()
        invariant
            requests@.len() == i,
            forall|k: int|
                0 <= k < i ==> (#[trigger] requests@[k])@ == request_for(
                    stream_arn@,
                    shards@[k]@,
                    iterator_type,
                ),
    {
        let shard = &shards[i];
        let parent_shard_id = match shard.parent_shard_id() {
            Some(id) => Some(id.to_owned()),
            None => None,
        };
        requests.push(
            ShardIteratorRequest {
                stream_arn: stream_arn.clone(),
                shard_id: shard.id().to_owned(),
                parent_shard_id,
                iterator_type,
                sequence_number: None,
            },
        );
    }
    assert(request_views(requests@) =~= requests_for(stream_arn@, shards@, iterator_type));
    requests
}

/// Requests are made for shards one by one: what is asked for shards of two lists
/// in a row is what is asked for the first, followed by what is asked for the
/// second, and a single shard is asked for by one request with its ids.
pub proof fn law_requests_are_made_one_by_one(
    stream_arn: Seq<char>,
    shards: Seq<Shard>,
    more: Seq<Shard>,
    shard: Shard,
    iterator_type: ShardIteratorType,
)
    ensures
        requests_for(stream_arn, shards + more, iterator_type) == requests_for(
            stream_arn,
            shards,
            iterator_type,
        ) + requests_for(stream_arn, more, iterator_type),
        requests_for(stream_arn, seq![shard], iterator_type) == seq![
            ShardIteratorRequestView {
                stream_arn,
                shard_id: shard@.id,
                parent_shard_id: shard@.parent_shard_id,
                iterator_type,
                sequence_number: None,
            },
        ],
{
    assert(requests_for(stream_arn, shards + more, iterator_type) =~= requests_for(
        stream_arn,
        shards,
        iterator_type,
    ) + requests_for(stream_arn, more, iterator_type));
    assert(requests_for(stream_arn, seq![shard], iterator_type) =~= seq![
        ShardIteratorRequestView {
            stream_arn,
            shard_id: shard@.id,
            parent_shard_id: shard@.parent_shard_id,
            iterator_type,
            sequence_number: None,
        },
    ]);
}

/// The contents of requests are what their fields hold.
pub proof fn law_requests_hold_their_fields(listing: ShardsRequest, opening: ShardIteratorRequest)
    ensures
        listing@.stream_arn == listing.stream_arn@,
        listing@.exclusive_start_shard_id is Some <==> listing.exclusive_start_shard_id is Some,
        listing.exclusive_start_shard_id matches Some(id)
            ==> listing@.exclusive_start_shard_id == Some(id@),
        opening@.stream_arn == opening.stream_arn@,
        opening@.shard_id == opening.shard_id@,
        opening@.parent_shard_id is Some <==> opening.parent_shard_id is Some,
        opening.parent_shard_id matches Some(id) ==> opening@.parent_shard_id == Some(id@),
        opening@.iterator_type == opening.iterator_type,
        opening@.sequence_number is Some <==> opening.sequence_number is Some,
        opening.sequence_number matches Some(number) ==> opening@.sequence_number == Some(number@),
{
}

} // verus!
