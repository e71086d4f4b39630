use aws_config::SdkConfig;
use dynamo_subscriber::client::{Client, ClientBuilder};
use dynamo_subscriber::stream::dynamodb::{
    DynamodbStream, DynamodbStreamBuilder, StreamParts, DEFAULT_BUFFER_SIZE, DEFAULT_INTERVAL_SECS,
};
use dynamo_subscriber::stream::event::{Action, Event};
use dynamo_subscriber::types::checkpoint::Checkpoint;
use dynamo_subscriber::types::initial_interator_type::{InitialIteratorType, ShardIteratorType};
use dynamo_subscriber::types::shard::Shard;
use std::collections::HashMap;
use std::time::Duration;

/// The table, the start position and the pause that a stream is started with.
fn observed<C>(parts: StreamParts<C>) -> (String, ShardIteratorType, Option<Duration>) {
    let (producer, action) = parts.producer.step(Event::Begin);
    let Action::GetStreamArn { table_name: table } = action else {
        panic!("polling begins with the stream of the table");
    };
    let (producer, _) = producer.step(Event::StreamArn(Ok("arn".to_string())));
    let listed = vec![Shard::new("a".to_string(), None, None)];
    let (producer, action) = producer.step(Event::AllShards(Ok(listed)));
    let Action::GetShardIterators { requests, .. } = action else {
        panic!("the shards are opened");
    };
    assert_eq!(requests.len(), 1);
    let iterator_type = requests[0].iterator_type;
    let mut producer = producer;
    let mut action = Action::Stop;
    for event in vec![
        Event::ShardIterators(vec![]),
        Event::InitSent,
        Event::Records(vec![]),
        Event::AllShards(Ok(vec![])),
        Event::ShardIterators(vec![]),
        Event::ShouldClose(false),
    ] {
        (producer, action) = producer.step(event);
    }
    let pause = match action {
        Action::Sleep(duration) => Some(duration),
        Action::GetRecords { .. } => None,
        other => panic!("{other:?}"),
    };
    (table, iterator_type, pause)
}

#[test]
fn stream_pauses_three_seconds_and_buffers_a_hundred_by_default() {
    assert_eq!(DEFAULT_INTERVAL_SECS, 3);
    assert_eq!(DEFAULT_BUFFER_SIZE, 100);
    let parts =
        DynamodbStreamBuilder::new((), "People".to_string(), InitialIteratorType::Latest).build();
    assert_eq!(parts.buffer, 100);
    assert_eq!(
        observed(parts),
        ("People".to_string(), ShardIteratorType::Latest, Some(Duration::from_secs(3)))
    );
}

#[test]
fn stream_builder_keeps_what_is_set() {
    let parts =
        DynamodbStreamBuilder::new("client", "Places".to_string(), InitialIteratorType::TrimHorizon)
            .interval(Some(Duration::from_millis(10)))
            .buffer(7)
            .build();
    assert_eq!(parts.buffer, 7);
    assert_eq!(*parts.producer.client(), "client");
    assert_eq!(
        observed(parts),
        (
            "Places".to_string(),
            ShardIteratorType::TrimHorizon,
            Some(Duration::from_millis(10))
        )
    );
}

#[test]
fn client_has_the_same_defaults() {
    let client = Client::new("sdk", "People".to_string());
    let parts = client.stream_from_latest();
    assert_eq!(parts.buffer, 100);
    assert_eq!(*parts.producer.client(), "sdk");
    assert_eq!(
        observed(parts),
        ("People".to_string(), ShardIteratorType::Latest, Some(Duration::from_secs(3)))
    );
}

#[test]
fn client_opens_the_stream_at_both_ends() {
    let client = Client::new("sdk", "People".to_string()).clone();
    assert_eq!(observed(client.stream_from_latest()).1, ShardIteratorType::Latest);
    assert_eq!(observed(client.stream_from_trim_horizon()).1, ShardIteratorType::TrimHorizon);
}

#[test]
fn client_builder_connects_with_its_configuration() {
    let config = SdkConfig::builder().app_name(
        aws_config::AppName::new("subscriber").unwrap(),
    );
    let client = ClientBuilder::new(config.build(), "People".to_string())
        .interval(None)
        .buffer(2)
        .build(|config: &SdkConfig| config.app_name().unwrap().to_string());
    let parts = client.stream_from_trim_horizon();
    assert_eq!(*parts.producer.client(), "subscriber");
    assert_eq!(parts.buffer, 2);
    assert_eq!(
        observed(parts),
        ("People".to_string(), ShardIteratorType::TrimHorizon, None)
    );
}

#[test]
fn client_builder_has_the_same_defaults() {
    let config = SdkConfig::builder().build();
    let client = Client::<()>::builder(config, "People".to_string()).build(|_: &SdkConfig| 5);
    let parts = client.stream_from_latest();
    assert_eq!(*parts.producer.client(), 5);
    assert_eq!(parts.buffer, 100);
    assert_eq!(observed(parts).2, Some(Duration::from_secs(3)));
}

#[test]
fn checkpoint_has_no_one_iterator_type() {
    let checkpoint = Checkpoint {
        shard_sequence_numbers: HashMap::from([("a".to_string(), "1".to_string())]),
    };
    assert_eq!(
        InitialIteratorType::Latest.shard_iterator_type(),
        Some(ShardIteratorType::Latest)
    );
    assert_eq!(
        InitialIteratorType::TrimHorizon.shard_iterator_type(),
        Some(ShardIteratorType::TrimHorizon)
    );
    assert_eq!(
        InitialIteratorType::AtCheckpoint(checkpoint.clone()).shard_iterator_type(),
        None
    );
    assert_eq!(InitialIteratorType::AfterCheckpoint(checkpoint).shard_iterator_type(), None);
}

#[test]
fn channel_is_taken_once() {
    let mut stream = DynamodbStream::new(vec![1, 2], "channel");
    assert_eq!(stream.take_channel(), Some("channel"));
    assert_eq!(stream.take_channel(), None);
    assert_eq!(stream.receiver().pop(), Some(2));
    assert_eq!(*stream.receiver(), vec![1]);
}
