use aws_sdk_dynamodb::operation::describe_table::DescribeTableError;
use aws_sdk_dynamodbstreams::error::SdkError;
use aws_sdk_dynamodbstreams::operation::describe_stream::DescribeStreamError;
use aws_sdk_dynamodbstreams::operation::get_records::GetRecordsError;
use aws_sdk_dynamodbstreams::operation::get_shard_iterator::GetShardIteratorError;
use aws_sdk_dynamodbstreams::types::error::{
    ExpiredIteratorException, InternalServerError, LimitExceededException,
    ResourceNotFoundException, TrimmedDataAccessException,
};
use aws_sdk_dynamodbstreams::types::Record;
use aws_smithy_runtime_api::client::orchestrator::HttpResponse;
use aws_smithy_runtime_api::client::result::ServiceError;
use aws_smithy_runtime_api::http::StatusCode;
use aws_smithy_types::body::SdkBody;
use dynamo_subscriber::client_sdk::{
    describe_stream_outcome, describe_table_outcome, empty_iterator, empty_records,
    get_records_outcome, get_shard_iterator_outcome, open_shard, read_page, recover_iterator,
    recover_records, RecordsFailure, ShardIteratorFailure,
};
use dynamo_subscriber::error::{Error, SdkFailure};
use dynamo_subscriber::types::output::{
    read_outcome, GetRecordsOutput, RecordsPage, StreamDescription, TableDescription,
};
use dynamo_subscriber::types::shard::{Shard, ShardDescription};

fn service_error<E>(error: E) -> SdkError<E, HttpResponse> {
    let resp = HttpResponse::new(StatusCode::try_from(400).unwrap(), SdkBody::empty());
    let inner = ServiceError::builder().source(error).raw(resp).build();
    SdkError::ServiceError(inner)
}

fn record(id: &str) -> Record {
    Record::builder().event_id(id).build()
}

fn shard(id: &str, iterator: Option<&str>) -> Shard {
    Shard::new(id.to_string(), None, iterator.map(str::to_string))
}

#[test]
fn empty_iterator_converts_some_errors_to_ok() {
    let e = ResourceNotFoundException::builder()
        .message("error")
        .build();
    let err = service_error(GetShardIteratorError::ResourceNotFoundException(e));
    assert!(empty_iterator(err).is_ok());

    let e = InternalServerError::builder().message("error").build();
    let err = service_error(GetShardIteratorError::InternalServerError(e));
    assert!(empty_iterator(err).is_err());

    let e = TrimmedDataAccessException::builder()
        .message("error")
        .build();
    let err = service_error(GetShardIteratorError::TrimmedDataAccessException(e));
    assert!(empty_iterator(err).is_ok());
}

#[test]
fn empty_records_converts_some_errors_to_ok() {
    let e = ResourceNotFoundException::builder()
        .message("error")
        .build();
    let err = service_error(GetRecordsError::ResourceNotFoundException(e));
    assert!(empty_records(err).is_ok());

    let e = InternalServerError::builder().message("error").build();
    let err = service_error(GetRecordsError::InternalServerError(e));
    assert!(empty_records(err).is_err());

    let e = ExpiredIteratorException::builder().message("error").build();
    let err = service_error(GetRecordsError::ExpiredIteratorException(e));
    assert!(empty_records(err).is_ok());

    let e = LimitExceededException::builder().message("error").build();
    let err = service_error(GetRecordsError::LimitExceededException(e));
    assert!(empty_records(err).is_ok());

    let e = TrimmedDataAccessException::builder()
        .message("error")
        .build();
    let err = service_error(GetRecordsError::TrimmedDataAccessException(e));
    assert!(empty_records(err).is_ok());
}

#[test]
fn recovered_iterator_is_none() {
    let e = TrimmedDataAccessException::builder().build();
    let err = service_error(GetShardIteratorError::TrimmedDataAccessException(e));
    assert!(matches!(empty_iterator(err), Ok(None)));

    let e = ResourceNotFoundException::builder().build();
    let e = GetShardIteratorError::ResourceNotFoundException(e);
    assert!(matches!(recover_iterator(ShardIteratorFailure::ResourceNotFound(e)), Ok(None)));
}

#[test]
fn iterator_errors_keep_what_was_reported() {
    let e = InternalServerError::builder().message("broken").build();
    let err = service_error(GetShardIteratorError::InternalServerError(e));
    match empty_iterator(err) {
        Err(Error::SdkError(SdkFailure::GetShardIteratorService(
            GetShardIteratorError::InternalServerError(e),
        ))) => assert_eq!(e.message(), Some("broken")),
        other => panic!("{other:?}"),
    }

    let err: SdkError<GetShardIteratorError> = SdkError::timeout_error("late");
    assert!(matches!(
        empty_iterator(err),
        Err(Error::SdkError(SdkFailure::GetShardIterator(SdkError::TimeoutError(_))))
    ));
}

#[test]
fn recovered_records_are_an_empty_page() {
    let e = LimitExceededException::builder().build();
    let err = service_error(GetRecordsError::LimitExceededException(e));
    let page = empty_records(err).unwrap();
    assert!(page.records.is_none());
    assert!(page.next_shard_iterator.is_none());

    let e = ExpiredIteratorException::builder().build();
    let e = GetRecordsError::ExpiredIteratorException(e);
    let page = recover_records(RecordsFailure::ExpiredIterator(e)).unwrap();
    assert!(page.records.is_none());
    assert!(page.next_shard_iterator.is_none());
}

#[test]
fn records_errors_keep_what_was_reported() {
    let e = InternalServerError::builder().message("broken").build();
    let err = service_error(GetRecordsError::InternalServerError(e));
    match empty_records(err) {
        Err(Error::SdkError(SdkFailure::GetRecordsService(
            GetRecordsError::InternalServerError(e),
        ))) => assert_eq!(e.message(), Some("broken")),
        other => panic!("{other:?}"),
    }

    let err: SdkError<GetRecordsError> = SdkError::construction_failure("bad request");
    assert!(matches!(
        empty_records(err),
        Err(Error::SdkError(SdkFailure::GetRecords(SdkError::ConstructionFailure(_))))
    ));
}

#[test]
fn stream_arn_is_the_latest_of_the_table() {
    let table = TableDescription { latest_stream_arn: Some("arn".to_string()) };
    let arn = describe_table_outcome(Ok(Some(table)), "People".to_string());
    assert_eq!(arn.unwrap(), "arn");
}

#[test]
fn table_without_stream_is_named_in_the_error() {
    let table = TableDescription { latest_stream_arn: None };
    match describe_table_outcome(Ok(Some(table)), "People".to_string()) {
        Err(Error::NotFoundStream(name)) => assert_eq!(name, "People"),
        other => panic!("{other:?}"),
    }
    match describe_table_outcome(Ok(None), "Places".to_string()) {
        Err(Error::NotFoundStream(name)) => assert_eq!(name, "Places"),
        other => panic!("{other:?}"),
    }
}

#[test]
fn failed_describe_table_is_an_sdk_error() {
    let err: SdkError<DescribeTableError> = SdkError::timeout_error("late");
    assert!(matches!(
        describe_table_outcome(Err(err), "People".to_string()),
        Err(Error::SdkError(SdkFailure::DescribeTable(SdkError::TimeoutError(_))))
    ));
}

#[test]
fn shards_without_id_are_left_out() {
    let description = StreamDescription {
        shards: Some(vec![
            ShardDescription {
                shard_id: Some("a".to_string()),
                parent_shard_id: None,
            },
            ShardDescription {
                shard_id: None,
                parent_shard_id: Some("a".to_string()),
            },
            ShardDescription {
                shard_id: Some("b".to_string()),
                parent_shard_id: Some("a".to_string()),
            },
        ]),
        last_evaluated_shard_id: Some("b".to_string()),
    };
    let output = describe_stream_outcome(Ok(Some(description)), "arn".to_string()).unwrap();
    assert_eq!(output.shards.len(), 2);
    assert_eq!(output.shards[0].id(), "a");
    assert_eq!(output.shards[0].parent_shard_id(), None);
    assert_eq!(output.shards[0].iterator(), None);
    assert_eq!(output.shards[1].id(), "b");
    assert_eq!(output.shards[1].parent_shard_id(), Some("a"));
    assert_eq!(output.last_shard_id.as_deref(), Some("b"));
}

#[test]
fn stream_may_have_no_shards() {
    let description = StreamDescription { shards: None, last_evaluated_shard_id: None };
    let output = describe_stream_outcome(Ok(Some(description)), "arn".to_string()).unwrap();
    assert!(output.shards.is_empty());
    assert!(output.last_shard_id.is_none());
}

#[test]
fn stream_without_description_is_named_in_the_error() {
    match describe_stream_outcome(Ok(None), "arn".to_string()) {
        Err(Error::NotFoundStreamDescription(arn)) => assert_eq!(arn, "arn"),
        other => panic!("{other:?}"),
    }
}

#[test]
fn failed_describe_stream_is_an_sdk_error() {
    let err: SdkError<DescribeStreamError> = SdkError::timeout_error("late");
    assert!(matches!(
        describe_stream_outcome(Err(err), "arn".to_string()),
        Err(Error::SdkError(SdkFailure::DescribeStream(SdkError::TimeoutError(_))))
    ));
}

#[test]
fn opened_shard_has_its_ids_and_its_iterator() {
    let opened = get_shard_iterator_outcome(Ok(Some("it".to_string())), "b", Some("a"))
        .unwrap()
        .unwrap();
    assert_eq!(opened.id(), "b");
    assert_eq!(opened.parent_shard_id(), Some("a"));
    assert_eq!(opened.iterator(), Some("it"));
}

#[test]
fn shard_without_iterator_is_not_opened() {
    assert!(matches!(get_shard_iterator_outcome(Ok(None), "b", None), Ok(None)));

    let e = ResourceNotFoundException::builder().build();
    let err = service_error(GetShardIteratorError::ResourceNotFoundException(e));
    assert!(matches!(get_shard_iterator_outcome(Err(err), "b", None), Ok(None)));

    assert!(matches!(open_shard(Ok(None), "b", Some("a")), Ok(None)));
}

#[test]
fn failed_opening_is_handed_on() {
    let err: SdkError<GetShardIteratorError> = SdkError::timeout_error("late");
    assert!(matches!(
        get_shard_iterator_outcome(Err(err), "b", None),
        Err(Error::SdkError(SdkFailure::GetShardIterator(_)))
    ));
}

#[test]
fn read_moves_the_shard_on() {
    let page = RecordsPage {
        records: Some(vec![record("1"), record("2")]),
        next_shard_iterator: Some("next".to_string()),
    };
    let output = get_records_outcome(Ok(page), shard("a", Some("now"))).unwrap();
    assert_eq!(output.records.len(), 2);
    assert_eq!(output.records[1].event_id(), Some("2"));
    let moved = output.shard.unwrap();
    assert_eq!(moved.id(), "a");
    assert_eq!(moved.iterator(), Some("next"));
}

#[test]
fn closed_shard_is_read_out() {
    let page = RecordsPage { records: None, next_shard_iterator: None };
    let output = read_page(Ok(page), shard("a", Some("now"))).unwrap();
    assert!(output.records.is_empty());
    assert!(output.shard.is_none());
}

#[test]
fn gone_shard_is_dropped_silently() {
    let e = TrimmedDataAccessException::builder().build();
    let err = service_error(GetRecordsError::TrimmedDataAccessException(e));
    let output = get_records_outcome(Err(err), shard("a", Some("now"))).unwrap();
    assert!(output.records.is_empty());
    assert!(output.shard.is_none());
}

#[test]
fn failed_read_is_handed_on() {
    let err: SdkError<GetRecordsError> = SdkError::timeout_error("late");
    assert!(matches!(
        get_records_outcome(Err(err), shard("a", None)),
        Err(Error::SdkError(SdkFailure::GetRecords(_)))
    ));
}

#[test]
fn outcome_of_a_read_keeps_the_shard_unless_it_failed() {
    let output = GetRecordsOutput { shard: Some(shard("a", Some("it"))), records: vec![record("1")] };
    let (kept, result) = read_outcome(Ok(output));
    assert_eq!(kept.unwrap().id(), "a");
    assert_eq!(result.unwrap().len(), 1);

    let (kept, result) = read_outcome(Err(Error::NotFoundStream("People".to_string())));
    assert!(kept.is_none());
    assert!(matches!(result, Err(Error::NotFoundStream(_))));
}
