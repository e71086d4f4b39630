use dynamo_subscriber::error::Error;
use dynamo_subscriber::listing::{ListingStep, ShardListing};
use dynamo_subscriber::types::output::GetShardsOutput;
use dynamo_subscriber::types::request::ShardsRequest;
use dynamo_subscriber::types::shard::Shard;

fn page(ids: &[&str], last: Option<&str>) -> GetShardsOutput {
    GetShardsOutput {
        shards: ids
            .iter()
            .map(|id| Shard::new(id.to_string(), None, None))
            .collect(),
        last_shard_id: last.map(str::to_string),
    }
}

fn first_page(stream_arn: &str) -> (ShardListing, ShardsRequest) {
    match ShardListing::start(stream_arn.to_string()) {
        ListingStep::Next(listing, request) => (listing, request),
        other => panic!("{other:?}"),
    }
}

#[test]
fn listing_gathers_all_pages_in_order() {
    let (listing, request) = first_page("arn");
    assert_eq!(request.exclusive_start_shard_id, None);
    let ListingStep::Next(listing, request) = listing.page(Ok(page(&["a", "b"], Some("b")))) else {
        panic!("the page names a further one");
    };
    assert_eq!(request.exclusive_start_shard_id.as_deref(), Some("b"));
    let ListingStep::Next(listing, request) = listing.page(Ok(page(&[], Some("c")))) else {
        panic!("the page names a further one");
    };
    assert_eq!(request.exclusive_start_shard_id.as_deref(), Some("c"));
    let ListingStep::Done(Ok(shards)) = listing.page(Ok(page(&["d"], None))) else {
        panic!("the page is the last");
    };
    let ids: Vec<&str> = shards.iter().map(|shard| shard.id()).collect();
    assert_eq!(ids, vec!["a", "b", "d"]);
}

#[test]
fn every_page_is_asked_of_the_stream() {
    let (listing, request) = first_page("arn");
    assert_eq!(request.stream_arn, "arn");
    let ListingStep::Next(listing, request) = listing.page(Ok(page(&["a"], Some("a")))) else {
        panic!("the page names a further one");
    };
    assert_eq!(request.stream_arn, "arn");
    let ListingStep::Next(_, request) = listing.page(Ok(page(&["b"], Some("b")))) else {
        panic!("the page names a further one");
    };
    assert_eq!(request.stream_arn, "arn");
}

#[test]
fn listing_fails_with_its_page_that_failed() {
    let (listing, _) = first_page("arn");
    let ListingStep::Next(listing, _) = listing.page(Ok(page(&["a"], Some("a")))) else {
        panic!("the page names a further one");
    };
    match listing.page(Err(Error::NotFoundStreamDescription("arn".to_string()))) {
        ListingStep::Done(Err(Error::NotFoundStreamDescription(arn))) => assert_eq!(arn, "arn"),
        other => panic!("{other:?}"),
    }
}
