//! The answers of the SDK, as far as the subscriber reads them, and what it
//! makes of them.

use crate::error::{Error, StreamResult};
use crate::types::shard::{Shard, ShardDescription};
use aws_sdk_dynamodbstreams::types::Record;
use vstd::prelude::*;

verus! {

/// What `DescribeTable` says of a table.
#[derive(Debug, Clone)]
pub struct TableDescription {
    /// The ARN of the latest stream of the table.
    pub latest_stream_arn: Option<String>,
}

/// What one page of `DescribeStream` says of a stream.
#[derive(Debug, Clone)]
pub struct StreamDescription {
    /// The shards of this page.
    pub shards: Option<Vec<ShardDescription>>,
    /// The id to ask for the next page with, if there is one.
    pub last_evaluated_shard_id: Option<String>,
}

/// What `GetRecords` answers.
#[derive(Debug)]
pub struct RecordsPage {
    /// The records read.
    pub records: Option<Vec<Record>>,
    /// The iterator for the next read, unless the shard is closed.
    pub next_shard_iterator: Option<String>,
}

/// One page of a stream's shards.
#[derive(Debug)]
pub struct GetShardsOutput {
    /// The shards of this page.
    pub shards: Vec<Shard>,
    /// The id to ask for the next page with, if there is one.
    pub last_shard_id: Option<String>,
}

/// The outcome of one read of a shard.
#[derive(Debug)]
pub struct GetRecordsOutput {
    /// The shard with the iterator for its next read, unless it is read out.
    pub shard: Option<Shard>,
    /// The records read.
    pub records: Vec<Record>,
}

/// What a read of a shard counts as in a round.
pub open spec fn spec_read_outcome(output: Result<GetRecordsOutput, Error>) -> (
    Option<Shard>,
    StreamResult,
) {
    match output {
        Ok(output) => (output.shard, Ok(output.records)),
        Err(e) => (None, Err(e)),
    }
}

/// What a read of a shard counts as in a round: the shard to read next time, and
/// the result for the consumer. A shard whose read failed is not read again.
pub fn read_outcome(output: Result<GetRecordsOutput, Error>) -> (outcome: (
    Option<Shard>,
    StreamResult,
))
    ensures
        outcome == spec_read_outcome(output),
{
    match output {
        Ok(output) => (output.shard, Ok(output.records)),
        Err(e) => (None, Err(e)),
    }
}

/// The outcome of a read loses nothing: the records or the error are the result,
/// and the shard is the one to read next time.
pub proof fn law_read_outcome_loses_nothing(output: Result<GetRecordsOutput, Error>)
    ensures
        output matches Ok(read) ==> spec_read_outcome(output).0 == read.shard
            && spec_read_outcome(output).1 == Ok::<Vec<Record>, Error>(read.records),
        output matches Err(e) ==> spec_read_outcome(output).0 is None && spec_read_outcome(
            output,
        ).1 == Err::<Vec<Record>, Error>(e),
{
}

} // verus!
