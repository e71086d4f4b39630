//! Types of the AWS SDK that pass through the crate unread, the tests by which the
//! service's errors are told apart, and the one constructor of `std` that the
//! defaults need.

use aws_sdk_dynamodbstreams::operation::get_records::GetRecordsError;
use aws_sdk_dynamodbstreams::operation::get_shard_iterator::GetShardIteratorError;
use std::time::Duration;
use vstd::prelude::*;

verus! {

/// `SdkError`: why a request to the SDK failed.
#[verifier::external_type_specification]
#[verifier::external_body]
#[verifier::reject_recursive_types(E)]
#[verifier::reject_recursive_types(R)]
pub struct ExSdkError<E, R>(aws_smithy_runtime_api::client::result::SdkError<E, R>);

/// `Response`: the raw answer that an `SdkError` keeps.
#[verifier::external_type_specification]
#[verifier::external_body]
#[verifier::reject_recursive_types(B)]
pub struct ExResponse<B>(aws_smithy_runtime_api::http::Response<B>);

/// `SdkBody`: the body of such a raw answer.
#[verifier::external_type_specification]
#[verifier::external_body]
pub struct ExSdkBody(aws_smithy_types::body::SdkBody);

/// `DescribeTableError`: the service's own error for `DescribeTable`.
#[verifier::external_type_specification]
#[verifier::external_body]
pub struct ExDescribeTableError(
    aws_sdk_dynamodb::operation::describe_table::DescribeTableError,
);

/// `DescribeStreamError`: the service's own error for `DescribeStream`.
#[verifier::external_type_specification]
#[verifier::external_body]
pub struct ExDescribeStreamError(
    aws_sdk_dynamodbstreams::operation::describe_stream::DescribeStreamError,
);

/// `GetShardIteratorError`: the service's own error for `GetShardIterator`.
#[verifier::external_type_specification]
#[verifier::external_body]
pub struct ExGetShardIteratorError(
    aws_sdk_dynamodbstreams::operation::get_shard_iterator::GetShardIteratorError,
);

/// `GetRecordsError`: the service's own error for `GetRecords`.
#[verifier::external_type_specification]
#[verifier::external_body]
pub struct ExGetRecordsError(
    aws_sdk_dynamodbstreams::operation::get_records::GetRecordsError,
);

/// `Record`: one change of one item of the table.
#[verifier::external_type_specification]
#[verifier::external_body]
pub struct ExRecord(aws_sdk_dynamodbstreams::types::Record);

/// `SdkConfig`: what an SDK client is made from.
#[verifier::external_type_specification]
#[verifier::external_body]
pub struct ExSdkConfig(aws_config::SdkConfig);

/// Whether an error of `GetShardIterator` is a `ResourceNotFoundException`.
pub uninterp spec fn is_shard_not_found(err: GetShardIteratorError) -> bool;

/// `GetShardIteratorError::is_resource_not_found_exception` tells whether the error is of the variant that
/// its name says. The contract says that the answer is a function of the error
/// alone, and gives it a name.
pub assume_specification[ GetShardIteratorError::is_resource_not_found_exception ](err: &GetShardIteratorError) -> (answer: bool)
    ensures
        answer == is_shard_not_found(*err),
;

/// Whether an error of `GetShardIterator` is a `TrimmedDataAccessException`.
pub uninterp spec fn is_position_trimmed(err: GetShardIteratorError) -> bool;

/// `GetShardIteratorError::is_trimmed_data_access_exception` tells whether the error is of the variant that
/// its name says. The contract says that the answer is a function of the error
/// alone, and gives it a name.
pub assume_specification[ GetShardIteratorError::is_trimmed_data_access_exception ](err: &GetShardIteratorError) -> (answer: bool)
    ensures
        answer == is_position_trimmed(*err),
;

/// Whether an error of `GetRecords` is an `ExpiredIteratorException`.
pub uninterp spec fn is_iterator_expired(err: GetRecordsError) -> bool;

/// `GetRecordsError::is_expired_iterator_exception` tells whether the error is of the variant that
/// its name says. The contract says that the answer is a function of the error
/// alone, and gives it a name.
pub assume_specification[ GetRecordsError::is_expired_iterator_exception ](err: &GetRecordsError) -> (answer: bool)
    ensures
        answer == is_iterator_expired(*err),
;

/// Whether an error of `GetRecords` is a `LimitExceededException`.
pub uninterp spec fn is_limit_exceeded(err: GetRecordsError) -> bool;

/// `GetRecordsError::is_limit_exceeded_exception` tells whether the error is of the variant that
/// its name says. The contract says that the answer is a function of the error
/// alone, and gives it a name.
pub assume_specification[ GetRecordsError::is_limit_exceeded_exception ](err: &GetRecordsError) -> (answer: bool)
    ensures
        answer == is_limit_exceeded(*err),
;

/// Whether an error of `GetRecords` is a `ResourceNotFoundException`.
pub uninterp spec fn is_read_shard_not_found(err: GetRecordsError) -> bool;

/// `GetRecordsError::is_resource_not_found_exception` tells whether the error is of the variant that
/// its name says. The contract says that the answer is a function of the error
/// alone, and gives it a name.
pub assume_specification[ GetRecordsError::is_resource_not_found_exception ](err: &GetRecordsError) -> (answer: bool)
    ensures
        answer == is_read_shard_not_found(*err),
;

/// Whether an error of `GetRecords` is a `TrimmedDataAccessException`.
pub uninterp spec fn is_record_trimmed(err: GetRecordsError) -> bool;

/// `GetRecordsError::is_trimmed_data_access_exception` tells whether the error is of the variant that
/// its name says. The contract says that the answer is a function of the error
/// alone, and gives it a name.
pub assume_specification[ GetRecordsError::is_trimmed_data_access_exception ](err: &GetRecordsError) -> (answer: bool)
    ensures
        answer == is_record_trimmed(*err),
;

/// The duration of `secs` whole seconds.
pub uninterp spec fn duration_of_secs(secs: u64) -> Duration;

/// `Duration::from_secs` returns the duration of that many whole seconds. The
/// contract says that the duration is a function of the seconds alone, and leaves
/// unsaid how a duration is measured in other units.
pub assume_specification[ Duration::from_secs ](secs: u64) -> (duration: Duration)
    ensures
        duration == duration_of_secs(secs),
;

} // verus!
