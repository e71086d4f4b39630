//! How the answers of the SDK are read.
//!
//! Each `.._outcome` function takes what a request to the SDK came back with and
//! returns what the subscriber goes on with.

use crate::error::{Error, SdkFailure};
use crate::outside::{
    is_iterator_expired, is_limit_exceeded, is_position_trimmed, is_read_shard_not_found,
    is_record_trimmed, is_shard_not_found,
};
use crate::selection::lemma_filter_map_places;
use crate::types::output::{
    GetRecordsOutput, GetShardsOutput, RecordsPage, StreamDescription, TableDescription,
};
use crate::types::shard::{described_shard, slice_text, Shard, ShardDescription, ShardView};
use aws_sdk_dynamodb::operation::describe_table::DescribeTableError;
use aws_sdk_dynamodbstreams::error::SdkError;
use aws_sdk_dynamodbstreams::operation::describe_stream::DescribeStreamError;
use aws_sdk_dynamodbstreams::operation::get_records::GetRecordsError;
use aws_sdk_dynamodbstreams::operation::get_shard_iterator::GetShardIteratorError;
use aws_sdk_dynamodbstreams::types::Record;
use vstd::prelude::*;

verus! {

/// The ways in which `GetShardIterator` fails, as far as they are told apart.
#[derive(Debug)]
pub enum ShardIteratorFailure {
    /// The stream or the shard does not exist.
    ResourceNotFound(GetShardIteratorError),
    /// The position asked for is trimmed from the shard.
    TrimmedDataAccess(GetShardIteratorError),
    /// The service refused for another reason.
    Service(GetShardIteratorError),
    /// The failure did not come from the service.
    Sdk(SdkError<GetShardIteratorError>),
}

/// The ways in which `GetRecords` fails, as far as they are told apart.
#[derive(Debug)]
pub enum RecordsFailure {
    /// The iterator is too old.
    ExpiredIterator(GetRecordsError),
    /// The shard is read too often.
    LimitExceeded(GetRecordsError),
    /// The stream or the shard does not exist.
    ResourceNotFound(GetRecordsError),
    /// The records asked for are trimmed from the shard.
    TrimmedDataAccess(GetRecordsError),
    /// The service refused for another reason.
    Service(GetRecordsError),
    /// The failure did not come from the service.
    Sdk(SdkError<GetRecordsError>),
}

/// The error that the service answered `GetShardIterator` with, where the failure
/// came from the service.
pub uninterp spec fn shard_iterator_service_error(
    err: SdkError<GetShardIteratorError>,
) -> Option<GetShardIteratorError>;

/// The error that the service answered `GetRecords` with, where the failure came
/// from the service.
pub uninterp spec fn records_service_error(
    err: SdkError<GetRecordsError>,
) -> Option<GetRecordsError>;

/// Takes the service's error out of `SdkError::ServiceError` with
/// `ServiceError::into_err`. The contract names that error, and says that a
/// failure of any other variant is handed back as it is.
#[verifier::external_body]
fn split_shard_iterator_error(err: SdkError<GetShardIteratorError>) -> (split: Result<
    GetShardIteratorError,
    SdkError<GetShardIteratorError>,
>)
    ensures
        match split {
            Ok(e) => shard_iterator_service_error(err) == Some(e),
            Err(e) => shard_iterator_service_error(err) is None && e == err,
        },
{
    match err {
        SdkError::ServiceError(e) => Ok(e.into_err()),
        err => Err(err),
    }
}

/// Takes the service's error out of `SdkError::ServiceError` with
/// `ServiceError::into_err`. The contract names that error, and says that a
/// failure of any other variant is handed back as it is.
#[verifier::external_body]
fn split_records_error(err: SdkError<GetRecordsError>) -> (split: Result<
    GetRecordsError,
    SdkError<GetRecordsError>,
>)
    ensures
        match split {
            Ok(e) => records_service_error(err) == Some(e),
            Err(e) => records_service_error(err) is None && e == err,
        },
{
    match err {
        SdkError::ServiceError(e) => Ok(e.into_err()),
        err => Err(err),
    }
}

/// The failure that an error of `GetShardIterator` stands for.
pub open spec fn shard_iterator_failure_of(
    err: SdkError<GetShardIteratorError>,
) -> ShardIteratorFailure {
    match shard_iterator_service_error(err) {
        Some(e) => if is_shard_not_found(e) {
            ShardIteratorFailure::ResourceNotFound(e)
        } else if is_position_trimmed(e) {
            ShardIteratorFailure::TrimmedDataAccess(e)
        } else {
            ShardIteratorFailure::Service(e)
        },
        None => ShardIteratorFailure::Sdk(err),
    }
}

/// The failure that an error of `GetRecords` stands for.
pub open spec fn records_failure_of(err: SdkError<GetRecordsError>) -> RecordsFailure {
    match records_service_error(err) {
        Some(e) => if is_iterator_expired(e) {
            RecordsFailure::ExpiredIterator(e)
        } else if is_limit_exceeded(e) {
            RecordsFailure::LimitExceeded(e)
        } else if is_read_shard_not_found(e) {
            RecordsFailure::ResourceNotFound(e)
        } else if is_record_trimmed(e) {
            RecordsFailure::TrimmedDataAccess(e)
        } else {
            RecordsFailure::Service(e)
        },
        None => RecordsFailure::Sdk(err),
    }
}

/// Tells which failure an error of `GetShardIterator` stands for.
fn shard_iterator_failure(err: SdkError<GetShardIteratorError>) -> (failure: ShardIteratorFailure)
    ensures
        failure == shard_iterator_failure_of(err),
{
    match split_shard_iterator_error(err) {
        Ok(e) => {
            if e.is_resource_not_found_exception() {
                ShardIteratorFailure::ResourceNotFound(e)
            } else if e.is_trimmed_data_access_exception() {
                ShardIteratorFailure::TrimmedDataAccess(e)
            } else {
                ShardIteratorFailure::Service(e)
            }
        },
        Err(err) => ShardIteratorFailure::Sdk(err),
    }
}

/// Tells which failure an error of `GetRecords` stands for.
fn records_failure(err: SdkError<GetRecordsError>) -> (failure: RecordsFailure)
    ensures
        failure == records_failure_of(err),
{
    match split_records_error(err) {
        Ok(e) => {
            if e.is_expired_iterator_exception() {
                RecordsFailure::ExpiredIterator(e)
            } else if e.is_limit_exceeded_exception() {
                RecordsFailure::LimitExceeded(e)
            } else if e.is_resource_not_found_exception() {
                RecordsFailure::ResourceNotFound(e)
            } else if e.is_trimmed_data_access_exception() {
                RecordsFailure::TrimmedDataAccess(e)
            } else {
                RecordsFailure::Service(e)
            }
        },
        Err(err) => RecordsFailure::Sdk(err),
    }
}

/// What is left of a failed `GetShardIterator`: no iterator where the stream,
/// the shard or the position is gone, and the error otherwise.
pub open spec fn recovered_iterator(failure: ShardIteratorFailure) -> Result<Option<String>, Error> {
    match failure {
        ShardIteratorFailure::ResourceNotFound(_) => Ok(None),
        ShardIteratorFailure::TrimmedDataAccess(_) => Ok(None),
        ShardIteratorFailure::Service(e) => Err(
            Error::SdkError(SdkFailure::GetShardIteratorService(e)),
        ),
        ShardIteratorFailure::Sdk(e) => Err(Error::SdkError(SdkFailure::GetShardIterator(e))),
    }
}

/// What is left of a failed `GetRecords`: an empty page where the iterator, the
/// shard or its records are gone or the shard is read too often, and the error
/// otherwise.
pub open spec fn recovered_records(failure: RecordsFailure) -> Result<RecordsPage, Error> {
    match failure {
        RecordsFailure::ExpiredIterator(_) => Ok(empty_page()),
        RecordsFailure::LimitExceeded(_) => Ok(empty_page()),
        RecordsFailure::ResourceNotFound(_) => Ok(empty_page()),
        RecordsFailure::TrimmedDataAccess(_) => Ok(empty_page()),
        RecordsFailure::Service(e) => Err(Error::SdkError(SdkFailure::GetRecordsService(e))),
        RecordsFailure::Sdk(e) => Err(Error::SdkError(SdkFailure::GetRecords(e))),
    }
}

/// The page that holds nothing and leads nowhere.
pub open spec fn empty_page() -> RecordsPage {
    RecordsPage { records: None, next_shard_iterator: None }
}

/// Returns what is left of a failed `GetShardIterator`.
pub fn recover_iterator(failure: ShardIteratorFailure) -> (iterator: Result<Option<String>, Error>)
    ensures
        iterator == recovered_iterator(failure),
{
    match failure {
        ShardIteratorFailure::ResourceNotFound(_) => Ok(None),
        ShardIteratorFailure::TrimmedDataAccess(_) => Ok(None),
        ShardIteratorFailure::Service(e) => {
            Err(Error::SdkError(SdkFailure::GetShardIteratorService(e)))
        },
        ShardIteratorFailure::Sdk(e) => Err(Error::SdkError(SdkFailure::GetShardIterator(e))),
    }
}

/// Returns what is left of a failed `GetRecords`.
pub fn recover_records(failure: RecordsFailure) -> (page: Result<RecordsPage, Error>)
    ensures
        page == recovered_records(failure),
{
    match failure {
        RecordsFailure::ExpiredIterator(_)
        | RecordsFailure::LimitExceeded(_)
        | RecordsFailure::ResourceNotFound(_)
        | RecordsFailure::TrimmedDataAccess(_) => {
            Ok(RecordsPage { records: None, next_shard_iterator: None })
        },
        RecordsFailure::Service(e) => Err(Error::SdkError(SdkFailure::GetRecordsService(e))),
        RecordsFailure::Sdk(e) => Err(Error::SdkError(SdkFailure::GetRecords(e))),
    }
}

/// What an error of `GetShardIterator` leaves: no iterator where the service could
/// not find the stream or the shard or has trimmed the position, the service's
/// error where it refused for another reason, and otherwise the error itself.
pub open spec fn iterator_behind(
    err: SdkError<GetShardIteratorError>,
) -> Result<Option<String>, Error> {
    match shard_iterator_service_error(err) {
        Some(e) => if is_shard_not_found(e) || is_position_trimmed(e) {
            Ok(None)
        } else {
            Err(Error::SdkError(SdkFailure::GetShardIteratorService(e)))
        },
        None => Err(Error::SdkError(SdkFailure::GetShardIterator(err))),
    }
}

/// What an error of `GetRecords` leaves: an empty page where the iterator is
/// expired, the shard is read too often, or the service could not find the stream
/// or the shard or has trimmed the records, the service's error where it refused
/// for another reason, and otherwise the error itself.
pub open spec fn page_behind(err: SdkError<GetRecordsError>) -> Result<RecordsPage, Error> {
    match records_service_error(err) {
        Some(e) => if is_iterator_expired(e) || is_limit_exceeded(e) || is_read_shard_not_found(e)
            || is_record_trimmed(e) {
            Ok(empty_page())
        } else {
            Err(Error::SdkError(SdkFailure::GetRecordsService(e)))
        },
        None => Err(Error::SdkError(SdkFailure::GetRecords(err))),
    }
}

/// Reads an error of `GetShardIterator`: no iterator if the stream, the shard or
/// the position is gone, so that the shard is dropped silently.
pub fn empty_iterator(
    err: SdkError<GetShardIteratorError>,
) -> (iterator: Result<Option<String>, Error>)
    ensures
        iterator == iterator_behind(err),
{
    recover_iterator(shard_iterator_failure(err))
}

/// Reads an error of `GetRecords`: an empty page if the iterator, the shard or
/// its records are gone or the shard is read too often, so that the shard is
/// dropped silently.
pub fn empty_records(err: SdkError<GetRecordsError>) -> (page: Result<RecordsPage, Error>)
    ensures
        page == page_behind(err),
{
    recover_records(records_failure(err))
}

/// Reads the answer of `DescribeTable`: the ARN of the table's latest stream.
pub fn describe_table_outcome(
    response: Result<Option<TableDescription>, SdkError<DescribeTableError>>,
    table_name: String,
) -> (stream_arn: Result<String, Error>)
    ensures
        stream_arn == match response {
            Err(e) => Err(Error::SdkError(SdkFailure::DescribeTable(e))),
            Ok(None) => Err(Error::NotFoundStream(table_name)),
            Ok(Some(table)) => match table.latest_stream_arn {
                Some(stream_arn) => Ok(stream_arn),
                None => Err(Error::NotFoundStream(table_name)),
            },
        },
{
    match response {
        Err(e) => Err(Error::SdkError(SdkFailure::DescribeTable(e))),
        Ok(table) => {
            let stream_arn = match table {
                Some(table) => table.latest_stream_arn,
                None => None,
            };
            stream_arn.ok_or(Error::NotFoundStream(table_name))
        },
    }
}

/// The shards that a page of descriptions stands for, in its order.
pub open spec fn described_shards(
    descriptions: Option<Vec<ShardDescription>>,
) -> Seq<ShardView> {
    match descriptions {
        Some(descriptions) => descriptions@.filter_map(
            |description: ShardDescription| described_shard(description),
        ),
        None => Seq::empty(),
    }
}

/// The contents of a list of shards.
pub open spec fn shard_views(shards: Seq<Shard>) -> Seq<ShardView> {
    shards.map_values(|shard: Shard| shard@)
}

/// Makes the shards that a page of descriptions stands for.
fn shards_from(descriptions: Option<Vec<ShardDescription>>) -> (shards: Vec<Shard>)
    ensures
        shard_views(shards@) == described_shards(descriptions),
{
    let mut shards: Vec<Shard> = Vec::new();
    match descriptions {
        Some(descriptions) => {
            let ghost described = |description: ShardDescription| described_shard(description);
            assert(descriptions@.take(0) =~= Seq::empty());
            assert(shard_views(shards@) =~= Seq::empty());
            for description in it: descriptions
                invariant
                    it.seq() == descriptions@,
                    described == (|description: ShardDescription| described_shard(description)),
                    shard_views(shards@) == it.seq().take(it.index()).filter_map(described),
            {
                let ghost before = shards@;
                proof {
                    let read = it.seq().take(it.index() + 1);
                    assert(read.drop_last() =~= it.seq().take(it.index()));
                    assert(read.last() == description);
                }
                match Shard::from_shard(description) {
                    Some(shard) => {
                        shards.push(shard);
                        assert(shard_views(shards@) =~= shard_views(before) + seq![shard@]);
                    },
                    None => {},
                }
            }
            assert(descriptions@.take(descriptions@.len() as int) =~= descriptions@);
        },
        None => {
            assert(shard_views(shards@) =~= Seq::empty());
        },
    }
    shards
}

/// Reads a page of `DescribeStream`: its shards and where the next page starts.
pub fn describe_stream_outcome(
    response: Result<Option<StreamDescription>, SdkError<DescribeStreamError>>,
    stream_arn: String,
) -> (output: Result<GetShardsOutput, Error>)
    ensures
        match response {
            Err(e) => output == Err::<GetShardsOutput, Error>(
                Error::SdkError(SdkFailure::DescribeStream(e)),
            ),
            Ok(None) => output == Err::<GetShardsOutput, Error>(
                Error::NotFoundStreamDescription(stream_arn),
            ),
            Ok(Some(description)) => {
                &&& output is Ok
                &&& shard_views(output->Ok_0.shards@) == described_shards(description.shards)
                &&& output->Ok_0.last_shard_id == description.last_evaluated_shard_id
            },
        },
{
    match response {
        Err(e) => Err(Error::SdkError(SdkFailure::DescribeStream(e))),
        Ok(None) => Err(Error::NotFoundStreamDescription(stream_arn)),
        Ok(Some(description)) => {
            Ok(
                GetShardsOutput {
                    shards: shards_from(description.shards),
                    last_shard_id: description.last_evaluated_shard_id,
                },
            )
        },
    }
}

/// What a shard is opened with: its ids, and the iterator if there is one. The
/// shard is dropped where there is none, and an error is handed on.
pub open spec fn is_opened(
    opened: Result<Option<Shard>, Error>,
    iterator: Result<Option<String>, Error>,
    shard_id: Seq<char>,
    parent_shard_id: Option<Seq<char>>,
) -> bool {
    match iterator {
        Err(e) => opened == Err::<Option<Shard>, Error>(e),
        Ok(None) => opened == Ok::<Option<Shard>, Error>(None),
        Ok(Some(iterator)) => opened matches Ok(Some(shard)) && shard@ == (ShardView {
            id: shard_id,
            parent_shard_id,
            iterator: Some(iterator@),
        }),
    }
}

/// Opens a shard with the iterator that was obtained for it.
pub fn open_shard(
    iterator: Result<Option<String>, Error>,
    shard_id: &str,
    parent_shard_id: Option<&str>,
) -> (opened: Result<Option<Shard>, Error>)
    ensures
        is_opened(opened, iterator, shard_id@, slice_text(parent_shard_id)),
{
    match iterator {
        Err(e) => Err(e),
        Ok(iterator) => {
            let parent_shard_id = match parent_shard_id {
                Some(id) => Some(id.to_owned()),
                None => None,
            };
            Ok(Shard::new(shard_id.to_owned(), parent_shard_id, None).set_iterator(iterator))
        },
    }
}

/// What `GetShardIterator` leaves: its answer, or what is left of its failure.
pub open spec fn iterator_left(
    response: Result<Option<String>, SdkError<GetShardIteratorError>>,
) -> Result<Option<String>, Error> {
    match response {
        Ok(iterator) => Ok(iterator),
        Err(err) => iterator_behind(err),
    }
}

/// Reads the answer of `GetShardIterator`: the shard with its iterator, or none
/// if the stream, the shard or the position is gone.
pub fn get_shard_iterator_outcome(
    response: Result<Option<String>, SdkError<GetShardIteratorError>>,
    shard_id: &str,
    parent_shard_id: Option<&str>,
) -> (opened: Result<Option<Shard>, Error>)
    ensures
        is_opened(opened, iterator_left(response), shard_id@, slice_text(parent_shard_id)),
{
    let iterator = match response {
        Ok(iterator) => Ok(iterator),
        Err(err) => empty_iterator(err),
    };
    open_shard(iterator, shard_id, parent_shard_id)
}

/// The records of a page.
pub open spec fn page_records(page: RecordsPage) -> Seq<Record> {
    match page.records {
        Some(records) => records@,
        None => Seq::empty(),
    }
}

/// What a read of a shard yields: the records of the page, and the shard with
/// the page's iterator if the page has one. An error is handed on.
pub open spec fn is_read(
    output: Result<GetRecordsOutput, Error>,
    page: Result<RecordsPage, Error>,
    shard: ShardView,
) -> bool {
    match page {
        Err(e) => output == Err::<GetRecordsOutput, Error>(e),
        Ok(page) => {
            &&& output is Ok
            &&& output->Ok_0.records@ == page_records(page)
            &&& match page.next_shard_iterator {
                Some(iterator) => output->Ok_0.shard is Some && output->Ok_0.shard->0@ == (
                ShardView { iterator: Some(iterator@), ..shard }),
                None => output->Ok_0.shard is None,
            }
        },
    }
}

/// Takes the records of a page and moves the shard on to the page's iterator.
pub fn read_page(page: Result<RecordsPage, Error>, shard: Shard) -> (output: Result<
    GetRecordsOutput,
    Error,
>)
    ensures
        is_read(output, page, shard@),
{
    match page {
        Err(e) => Err(e),
        Ok(page) => {
            let shard = shard.set_iterator(page.next_shard_iterator);
            let records = match page.records {
                Some(records) => records,
                None => Vec::new(),
            };
            Ok(GetRecordsOutput { shard, records })
        },
    }
}

/// What `GetRecords` leaves: its answer, or what is left of its failure.
pub open spec fn page_left(
    response: Result<RecordsPage, SdkError<GetRecordsError>>,
) -> Result<RecordsPage, Error> {
    match response {
        Ok(page) => Ok(page),
        Err(err) => page_behind(err),
    }
}

/// Reads the answer of `GetRecords`: the records, and the shard with the iterator
/// for its next read unless the shard is read out or gone.
pub fn get_records_outcome(
    response: Result<RecordsPage, SdkError<GetRecordsError>>,
    shard: Shard,
) -> (output: Result<GetRecordsOutput, Error>)
    ensures
        is_read(output, page_left(response), shard@),
{
    let page = match response {
        Ok(page) => Ok(page),
        Err(err) => empty_records(err),
    };
    read_page(page, shard)
}

/// A failure of `GetShardIterator` is dropped silently or handed on. It is dropped
/// exactly where the service could not find the stream or the shard or has trimmed
/// the position: no shard is opened and no error is seen.
pub proof fn law_failed_opening_opens_nothing(
    err: SdkError<GetShardIteratorError>,
    opened: Result<Option<Shard>, Error>,
    shard_id: Seq<char>,
    parent_shard_id: Option<Seq<char>>,
)
    requires
        is_opened(opened, iterator_left(Err(err)), shard_id, parent_shard_id),
    ensures
        opened matches Ok(shard) ==> shard is None,
        opened is Ok <==> (shard_iterator_service_error(err) matches Some(e) && (
        is_shard_not_found(e) || is_position_trimmed(e))),
        opened matches Err(error) ==> match shard_iterator_service_error(err) {
            Some(e) => error == Error::SdkError(SdkFailure::GetShardIteratorService(e)),
            None => error == Error::SdkError(SdkFailure::GetShardIterator(err)),
        },
        iterator_behind(err) matches Ok(iterator) ==> iterator is None && opened is Ok,
        iterator_behind(err) matches Err(error) ==> opened == Err::<Option<Shard>, Error>(error),
{
}

/// A failure of `GetRecords` is dropped silently or handed on. It is dropped
/// exactly where the iterator is expired, the shard is read too often, or the
/// service could not find the stream or the shard or has trimmed the records:
/// nothing is read, the shard is not read again and no error is seen.
pub proof fn law_failed_read_yields_nothing(
    err: SdkError<GetRecordsError>,
    output: Result<GetRecordsOutput, Error>,
    shard: ShardView,
)
    requires
        is_read(output, page_left(Err(err)), shard),
    ensures
        output matches Ok(output) ==> output.records@.len() == 0 && output.shard is None,
        output is Ok <==> (records_service_error(err) matches Some(e) && (is_iterator_expired(e)
            || is_limit_exceeded(e) || is_read_shard_not_found(e) || is_record_trimmed(e))),
        output matches Err(error) ==> match records_service_error(err) {
            Some(e) => error == Error::SdkError(SdkFailure::GetRecordsService(e)),
            None => error == Error::SdkError(SdkFailure::GetRecords(err)),
        },
        page_behind(err) matches Ok(page) ==> page.records is None
            && page.next_shard_iterator is None && output is Ok,
        page_behind(err) matches Err(error) ==> output == Err::<GetRecordsOutput, Error>(error),
{
}

/// Reading a shard changes its iterator and nothing else of it, and every shard
/// that comes back from a read, or is opened, has an iterator.
pub proof fn law_shards_to_read_have_iterators(
    opened: Result<Option<Shard>, Error>,
    iterator: Result<Option<String>, Error>,
    output: Result<GetRecordsOutput, Error>,
    page: Result<RecordsPage, Error>,
    shard: ShardView,
)
    requires
        is_opened(opened, iterator, shard.id, shard.parent_shard_id),
        is_read(output, page, shard),
    ensures
        opened matches Ok(Some(opened)) ==> opened@ == (ShardView {
            iterator: opened@.iterator,
            ..shard
        }) && opened@.iterator is Some,
        output matches Ok(output) ==> (output.shard matches Some(read) ==> read@ == (ShardView {
            iterator: read@.iterator,
            ..shard
        }) && read@.iterator is Some),
{
}

/// Of the failures that are told apart, exactly those of the service's refusals
/// that say that a shard, a position or an iterator is gone or a shard is read too
/// often are dropped. The others are handed on with the error that they hold.
pub proof fn law_failures_are_dropped_or_handed_on(
    opening: ShardIteratorFailure,
    reading: RecordsFailure,
)
    ensures
        opening is ResourceNotFound || opening is TrimmedDataAccess ==> recovered_iterator(opening)
            == Ok::<Option<String>, Error>(None),
        opening matches ShardIteratorFailure::Service(e) ==> recovered_iterator(opening) == Err::<
            Option<String>,
            Error,
        >(Error::SdkError(SdkFailure::GetShardIteratorService(e))),
        opening matches ShardIteratorFailure::Sdk(e) ==> recovered_iterator(opening) == Err::<
            Option<String>,
            Error,
        >(Error::SdkError(SdkFailure::GetShardIterator(e))),
        reading is ExpiredIterator || reading is LimitExceeded || reading is ResourceNotFound
            || reading is TrimmedDataAccess ==> (recovered_records(reading) matches Ok(page)
            && page.records is None && page.next_shard_iterator is None),
        reading matches RecordsFailure::Service(e) ==> recovered_records(reading) == Err::<
            RecordsPage,
            Error,
        >(Error::SdkError(SdkFailure::GetRecordsService(e))),
        reading matches RecordsFailure::Sdk(e) ==> recovered_records(reading) == Err::<
            RecordsPage,
            Error,
        >(Error::SdkError(SdkFailure::GetRecords(e))),
{
}

/// A page of descriptions is read description by description: each one that has an
/// id yields a shard with that id, the parent that it names and no iterator, in
/// the order of the page, and nothing else does, whatever the parents are and
/// whichever shards stand beside it. So a page whose descriptions all have an id
/// yields as many shards. The places of these descriptions are returned.
pub proof fn law_every_described_shard_is_listed(
    shards: Seq<Shard>,
    descriptions: Vec<ShardDescription>,
) -> (places: Seq<int>)
    requires
        shard_views(shards) == described_shards(Some(descriptions)),
    ensures
        shards.len() == places.len(),
        forall|k: int|
            0 <= k < places.len() ==> 0 <= #[trigger] places[k] < descriptions@.len() && (
            descriptions@[places[k]].shard_id matches Some(id) && shards[k]@.id == id@)
                && match descriptions@[places[k]].parent_shard_id {
                Some(parent) => shards[k]@.parent_shard_id == Some(parent@),
                None => shards[k]@.parent_shard_id is None,
            } && shards[k]@.iterator is None,
        forall|k: int, l: int|
            0 <= k < l < places.len() ==> #[trigger] places[k] < #[trigger] places[l],
        forall|i: int|
            0 <= i < descriptions@.len() && (#[trigger] descriptions@[i]).shard_id is Some
                ==> places.contains(i),
        (forall|i: int|
            0 <= i < descriptions@.len() ==> (#[trigger] descriptions@[i]).shard_id is Some)
            ==> shards.len() == descriptions@.len(),
{
    let described = |description: ShardDescription| described_shard(description);
    let places = lemma_filter_map_places(descriptions@, described);
    let views = descriptions@.filter_map(described);
    assert(described_shards(Some(descriptions)) == views);
    assert(shard_views(shards).len() == shards.len());
    assert forall|k: int| 0 <= k < places.len() implies 0 <= #[trigger] places[k]
        < descriptions@.len() && described_shard(descriptions@[places[k]]) == Some(shards[k]@) by {
        assert(described(descriptions@[places[k]]) == Some(views[k]));
        assert(shard_views(shards)[k] == shards[k]@);
    }
    assert forall|i: int|
        0 <= i < descriptions@.len() && (
        #[trigger] descriptions@[i]).shard_id is Some implies places.contains(i) by {
        assert(described(descriptions@[i]) is Some);
    }
    if forall|i: int|
        0 <= i < descriptions@.len() ==> (#[trigger] descriptions@[i]).shard_id is Some {
        assert forall|i: int| 0 <= i < descriptions@.len() implies described(
            #[trigger] descriptions@[i],
        ) is Some by {
            assert(descriptions@[i].shard_id is Some);
        }
    }
    places
}

/// A stream whose description names no list of shards has none.
pub proof fn law_no_description_lists_no_shard(shards: Seq<Shard>)
    requires
        shard_views(shards) == described_shards(None),
    ensures
        shards.len() == 0,
{
    assert(shard_views(shards).len() == shards.len());
}

/// A read yields the records of the page, all of them and in order, whether or not
/// the page names a next iterator, and none only where the page has no list of
/// records. The shard goes on exactly if the page names a next iterator, with that
/// iterator and its own ids.
pub proof fn law_read_yields_the_records_of_the_page(
    output: Result<GetRecordsOutput, Error>,
    page: RecordsPage,
    shard: ShardView,
)
    requires
        is_read(output, Ok(page), shard) || is_read(output, page_left(Ok(page)), shard),
    ensures
        output matches Ok(read) && {
            &&& page.records matches Some(records) ==> read.records@ == records@
            &&& page.records is None ==> read.records@.len() == 0
            &&& page.next_shard_iterator is None ==> read.shard is None
            &&& page.next_shard_iterator matches Some(iterator) ==> (read.shard matches Some(next)
                && next@.iterator == Some(iterator@) && next@.id == shard.id
                && next@.parent_shard_id == shard.parent_shard_id)
        },
{
}

/// An error of a read is handed on as it is.
pub proof fn law_error_of_a_read_is_handed_on(
    output: Result<GetRecordsOutput, Error>,
    error: Error,
    shard: ShardView,
)
    requires
        is_read(output, Err(error), shard),
    ensures
        output == Err::<GetRecordsOutput, Error>(error),
{
}

/// An answer with an iterator opens the shard that was asked for, with its own ids
/// and that iterator, whatever its parent is, and one without opens none.
pub proof fn law_answer_opens_the_shard(
    opened: Result<Option<Shard>, Error>,
    iterator: Option<String>,
    shard_id: Seq<char>,
    parent_shard_id: Option<Seq<char>>,
)
    requires
        is_opened(opened, Ok(iterator), shard_id, parent_shard_id) || is_opened(
            opened,
            iterator_left(Ok(iterator)),
            shard_id,
            parent_shard_id,
        ),
    ensures
        iterator is None ==> opened == Ok::<Option<Shard>, Error>(None),
        iterator matches Some(iterator) ==> (opened matches Ok(Some(shard)) && shard@.id == shard_id
            && shard@.parent_shard_id == parent_shard_id && shard@.iterator == Some(iterator@)),
{
}

/// An error of an opening is handed on as it is.
pub proof fn law_error_of_an_opening_is_handed_on(
    opened: Result<Option<Shard>, Error>,
    error: Error,
    shard_id: Seq<char>,
    parent_shard_id: Option<Seq<char>>,
)
    requires
        is_opened(opened, Err(error), shard_id, parent_shard_id),
    ensures
        opened == Err::<Option<Shard>, Error>(error),
{
}

} // verus!
