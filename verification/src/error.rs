//! What can go wrong while a table is subscribed to.

use aws_sdk_dynamodb::operation::describe_table::DescribeTableError;
use aws_sdk_dynamodbstreams::error::SdkError;
use aws_sdk_dynamodbstreams::operation::describe_stream::DescribeStreamError;
use aws_sdk_dynamodbstreams::operation::get_records::GetRecordsError;
use aws_sdk_dynamodbstreams::operation::get_shard_iterator::GetShardIteratorError;
use aws_sdk_dynamodbstreams::types::Record;
use vstd::prelude::*;

verus! {

/// The failure that the SDK reported, with the error it reported it with.
#[derive(Debug)]
pub enum SdkFailure {
    /// `DescribeTable` failed.
    DescribeTable(SdkError<DescribeTableError>),
    /// `DescribeStream` failed.
    DescribeStream(SdkError<DescribeStreamError>),
    /// `GetShardIterator` failed outside the service.
    GetShardIterator(SdkError<GetShardIteratorError>),
    /// The service refused `GetShardIterator`.
    GetShardIteratorService(GetShardIteratorError),
    /// `GetRecords` failed outside the service.
    GetRecords(SdkError<GetRecordsError>),
    /// The service refused `GetRecords`.
    GetRecordsService(GetRecordsError),
}

/// An error of the subscriber.
#[derive(Debug)]
pub enum Error {
    /// A request to the SDK failed.
    SdkError(SdkFailure),
    /// The table of this name has no stream.
    NotFoundStream(String),
    /// The stream of this ARN has no description.
    NotFoundStreamDescription(String),
}

/// What the stream yields: the records of one read of one shard, or the error
/// that the read or the polling met.
pub type StreamResult = Result<Vec<Record>, Error>;

} // verus!
