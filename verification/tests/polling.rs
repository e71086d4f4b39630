use aws_sdk_dynamodbstreams::types::Record;
use dynamo_subscriber::client_sdk::{get_records_outcome, get_shard_iterator_outcome};
use dynamo_subscriber::error::{Error, StreamResult};
use dynamo_subscriber::stream::event::{Action, Event};
use dynamo_subscriber::stream::producer::DynamodbStreamProducer;
use dynamo_subscriber::types::initial_interator_type::ShardIteratorType;
use dynamo_subscriber::types::output::{read_outcome, RecordsPage};
use dynamo_subscriber::types::request::shard_iterator_requests;
use dynamo_subscriber::types::shard::Shard;
use std::time::Duration;

type Producer = DynamodbStreamProducer<&'static str>;

fn record(id: &str) -> Record {
    Record::builder().event_id(id).build()
}

fn listed(ids: &[&str]) -> Event {
    Event::AllShards(Ok(ids
        .iter()
        .map(|id| Shard::new(id.to_string(), None, None))
        .collect()))
}

fn open(id: &str) -> Shard {
    Shard::new(id.to_string(), None, Some(format!("{id}-0")))
}

fn opened(ids: &[&str]) -> Event {
    Event::ShardIterators(ids.iter().map(|id| Ok(Some(open(id)))).collect())
}

fn lost() -> Error {
    Error::NotFoundStream("People".to_string())
}

fn new_producer(interval: Option<Duration>) -> Producer {
    DynamodbStreamProducer::new(
        "client",
        "People".to_string(),
        interval,
        ShardIteratorType::Latest,
    )
}

fn drive(producer: Producer, events: Vec<Event>) -> (Producer, Action) {
    let mut producer = producer;
    let mut action = Action::Stop;
    for event in events {
        (producer, action) = producer.step(event);
    }
    (producer, action)
}

/// A producer that waits for the records of the given shards.
fn reading(interval: Option<Duration>, ids: &[&str]) -> Producer {
    let (producer, action) = drive(
        new_producer(interval),
        vec![
            Event::Begin,
            Event::StreamArn(Ok("arn".to_string())),
            listed(ids),
            opened(ids),
            Event::InitSent,
        ],
    );
    assert!(matches!(action, Action::GetRecords { .. }));
    producer
}

fn ids_to_read(action: &Action) -> Vec<String> {
    match action {
        Action::GetRecords { lineages, .. } => (0..lineages.len())
            .map(|i| lineages.shard(i).id().to_string())
            .collect(),
        other => panic!("{other:?}"),
    }
}

fn ids_to_open(action: &Action) -> Vec<String> {
    match action {
        Action::GetShardIterators { requests, .. } => {
            requests.iter().map(|request| request.shard_id.clone()).collect()
        }
        other => panic!("{other:?}"),
    }
}

fn sent_ids(action: &Action) -> Vec<String> {
    match action {
        Action::Send(Ok(records)) => records
            .iter()
            .map(|record| record.event_id().unwrap().to_string())
            .collect(),
        other => panic!("{other:?}"),
    }
}

#[test]
fn polling_begins_with_the_stream_of_the_table() {
    let producer = new_producer(None);
    assert_eq!(*producer.client(), "client");
    let (producer, action) = producer.step(Event::Begin);
    match action {
        Action::GetStreamArn { table_name } => assert_eq!(table_name, "People"),
        other => panic!("{other:?}"),
    }
    let (producer, action) = producer.step(Event::StreamArn(Ok("arn".to_string())));
    match action {
        Action::GetAllShards { stream_arn } => assert_eq!(stream_arn, "arn"),
        other => panic!("{other:?}"),
    }
    let (producer, action) = producer.step(listed(&["a", "b"]));
    match &action {
        Action::GetShardIterators { requests, buffer } => {
            assert!(requests.iter().all(|request| request.stream_arn == "arn"
                && request.iterator_type == ShardIteratorType::Latest
                && request.sequence_number.is_none()));
            assert_eq!(*buffer, 2);
        }
        other => panic!("{other:?}"),
    }
    assert_eq!(ids_to_open(&action), vec!["a", "b"]);
    let (producer, action) = producer.step(opened(&["b", "a"]));
    assert!(matches!(action, Action::SendInit));
    let (producer, action) = producer.step(Event::InitSent);
    assert_eq!(ids_to_read(&action), vec!["b", "a"]);
    match &action {
        Action::GetRecords { lineages, buffer } => {
            assert_eq!(*buffer, 2);
            assert_eq!(lineages.shard(0).iterator(), Some("b-0"));
        }
        other => panic!("{other:?}"),
    }
    assert_eq!(*producer.client(), "client");
}

#[test]
fn channel_of_no_shards_still_has_room() {
    let (producer, action) = drive(
        new_producer(None),
        vec![Event::Begin, Event::StreamArn(Ok("arn".to_string())), listed(&[])],
    );
    match action {
        Action::GetShardIterators { requests, buffer } => {
            assert!(requests.is_empty());
            assert_eq!(buffer, 1);
        }
        other => panic!("{other:?}"),
    }
    let (_, action) = drive(producer, vec![opened(&[]), Event::InitSent]);
    match action {
        Action::GetRecords { lineages, buffer } => {
            assert_eq!(lineages.len(), 0);
            assert_eq!(buffer, 1);
        }
        other => panic!("{other:?}"),
    }
}

#[test]
fn unknown_stream_is_the_last_thing_sent() {
    let (producer, action) = drive(
        new_producer(None),
        vec![Event::Begin, Event::StreamArn(Err(lost()))],
    );
    assert!(matches!(action, Action::Send(Err(Error::NotFoundStream(_)))));
    let (producer, action) = producer.step(Event::Sent(true));
    assert!(matches!(action, Action::Stop));
    let (_, action) = producer.step(Event::Begin);
    assert!(matches!(action, Action::Stop));
}

#[test]
fn first_listing_that_fails_is_the_last_thing_sent() {
    let (producer, action) = drive(
        new_producer(None),
        vec![
            Event::Begin,
            Event::StreamArn(Ok("arn".to_string())),
            Event::AllShards(Err(Error::NotFoundStreamDescription("arn".to_string()))),
        ],
    );
    assert!(matches!(action, Action::Send(Err(Error::NotFoundStreamDescription(_)))));
    let (_, action) = producer.step(Event::Sent(false));
    assert!(matches!(action, Action::Stop));
}

#[test]
fn shards_that_do_not_open_are_left_out() {
    let (_, action) = drive(
        new_producer(None),
        vec![
            Event::Begin,
            Event::StreamArn(Ok("arn".to_string())),
            listed(&["a", "b", "c"]),
            Event::ShardIterators(vec![Ok(None), Ok(Some(open("c"))), Err(lost())]),
            Event::InitSent,
        ],
    );
    assert_eq!(ids_to_read(&action), vec!["c"]);
}

#[test]
fn round_sends_what_is_worth_sending_in_order() {
    let received: Vec<(Option<Shard>, StreamResult)> = vec![
        (Some(open("a")), Ok(vec![])),
        (Some(open("b")), Ok(vec![record("1"), record("2")])),
        (None, Err(lost())),
        (None, Ok(vec![])),
        (Some(open("d")), Ok(vec![record("3")])),
    ];
    let (producer, action) = drive(
        reading(None, &["a", "b", "c", "d"]),
        vec![
            Event::Records(received),
            listed(&["a", "b", "c", "d"]),
            opened(&[]),
        ],
    );
    assert!(matches!(action, Action::CheckClose));
    let (producer, action) = producer.step(Event::ShouldClose(false));
    assert_eq!(sent_ids(&action), vec!["1", "2"]);
    let (producer, action) = producer.step(Event::Sent(true));
    assert!(matches!(action, Action::Send(Err(Error::NotFoundStream(_)))));
    let (producer, action) = producer.step(Event::Sent(true));
    assert_eq!(sent_ids(&action), vec!["3"]);
    let (_, action) = producer.step(Event::Sent(true));
    assert_eq!(ids_to_read(&action), vec!["a", "b", "d"]);
}

#[test]
fn read_shards_are_not_opened_again() {
    let (producer, action) = drive(
        reading(None, &["a", "b"]),
        vec![
            Event::Records(vec![(Some(open("a")), Ok(vec![])), (None, Ok(vec![]))]),
            listed(&["b", "c", "a", "d"]),
        ],
    );
    match &action {
        Action::GetShardIterators { requests, buffer } => {
            assert!(requests.iter().all(|request| request.stream_arn == "arn"
                && request.iterator_type == ShardIteratorType::TrimHorizon
                && request.sequence_number.is_none()));
            assert_eq!(*buffer, 2);
        }
        other => panic!("{other:?}"),
    }
    assert_eq!(ids_to_open(&action), vec!["c", "d"]);
    let (_, action) = drive(producer, vec![opened(&["d", "c"]), Event::ShouldClose(false)]);
    assert_eq!(ids_to_read(&action), vec!["a", "d", "c"]);
}

#[test]
fn shard_that_did_not_open_is_tried_again() {
    let (_, action) = drive(
        reading(None, &["a"]),
        vec![
            Event::Records(vec![(Some(open("a")), Ok(vec![]))]),
            listed(&["a", "b", "c"]),
            Event::ShardIterators(vec![Err(lost()), Ok(Some(open("c")))]),
            Event::ShouldClose(false),
            Event::Records(vec![]),
            listed(&["a", "b", "c"]),
        ],
    );
    assert_eq!(ids_to_open(&action), vec!["b"]);
}

#[test]
fn pause_separates_two_rounds() {
    let pause = Duration::from_millis(1500);
    let (producer, action) = drive(
        reading(Some(pause), &["a"]),
        vec![
            Event::Records(vec![(Some(open("a")), Ok(vec![]))]),
            listed(&["a"]),
            opened(&[]),
            Event::ShouldClose(false),
        ],
    );
    match action {
        Action::Sleep(duration) => assert_eq!(duration, pause),
        other => panic!("{other:?}"),
    }
    let (_, action) = producer.step(Event::Slept);
    assert_eq!(ids_to_read(&action), vec!["a"]);
}

#[test]
fn listing_that_fails_loses_the_results_of_the_round() {
    let (producer, action) = drive(
        reading(None, &["a"]),
        vec![
            Event::Records(vec![(Some(open("a")), Ok(vec![record("1")]))]),
            Event::AllShards(Err(lost())),
        ],
    );
    assert!(matches!(action, Action::Send(Err(Error::NotFoundStream(_)))));
    let (_, action) = producer.step(Event::Sent(true));
    assert!(matches!(action, Action::Stop));
}

#[test]
fn closing_drops_the_results_of_the_round() {
    let (producer, action) = drive(
        reading(None, &["a"]),
        vec![
            Event::Records(vec![(Some(open("a")), Ok(vec![record("1")]))]),
            listed(&["a"]),
            opened(&[]),
            Event::ShouldClose(true),
        ],
    );
    assert!(matches!(action, Action::Stop));
    let (_, action) = producer.step(Event::Sent(true));
    assert!(matches!(action, Action::Stop));
}

#[test]
fn polling_ends_when_no_one_listens() {
    let (_, action) = drive(
        reading(None, &["a"]),
        vec![
            Event::Records(vec![
                (Some(open("a")), Ok(vec![record("1")])),
                (None, Ok(vec![record("2")])),
            ]),
            listed(&["a"]),
            opened(&[]),
            Event::ShouldClose(false),
            Event::Sent(false),
        ],
    );
    assert!(matches!(action, Action::Stop));
}

#[test]
fn event_that_is_not_waited_for_ends_polling() {
    let (_, action) = new_producer(None).step(Event::Slept);
    assert!(matches!(action, Action::Stop));
    let (_, action) = reading(None, &["a"]).step(Event::Sent(true));
    assert!(matches!(action, Action::Stop));
}

#[test]
fn two_puts_arrive_one_by_one_until_the_stream_is_closed() {
    let round = |key: &str| {
        vec![
            Event::Records(vec![(Some(open("a")), Ok(vec![record(key)]))]),
            listed(&["a"]),
            opened(&[]),
            Event::ShouldClose(false),
        ]
    };
    let (producer, action) = drive(reading(None, &["a"]), round("pk0"));
    assert_eq!(sent_ids(&action), vec!["pk0"]);
    let (producer, _) = producer.step(Event::Sent(true));
    let (producer, action) = drive(producer, round("pk1"));
    assert_eq!(sent_ids(&action), vec!["pk1"]);
    let (_, action) = drive(
        producer,
        vec![
            Event::Sent(true),
            Event::Records(vec![(Some(open("a")), Ok(vec![]))]),
            listed(&["a"]),
            opened(&[]),
            Event::ShouldClose(true),
        ],
    );
    assert!(matches!(action, Action::Stop));
}

#[test]
fn each_shard_is_asked_for_by_one_request() {
    let child = Shard::new("b".to_string(), Some("a".to_string()), None);
    let root = Shard::new("a".to_string(), None, Some("a-0".to_string()));
    let again = Shard::new("b".to_string(), None, None);
    let requests = shard_iterator_requests(
        &"arn".to_string(),
        vec![child, root, again],
        ShardIteratorType::Latest,
    );
    let asked: Vec<(&str, &str, Option<&str>)> = requests
        .iter()
        .map(|request| {
            assert_eq!(request.iterator_type, ShardIteratorType::Latest);
            assert_eq!(request.sequence_number, None);
            (
                request.stream_arn.as_str(),
                request.shard_id.as_str(),
                request.parent_shard_id.as_deref(),
            )
        })
        .collect();
    assert_eq!(asked, vec![("arn", "b", Some("a")), ("arn", "a", None), ("arn", "b", None)]);

    let none = shard_iterator_requests(
        &"arn".to_string(),
        vec![],
        ShardIteratorType::TrimHorizon,
    );
    assert!(none.is_empty());
}

#[test]
fn requests_name_the_parents_of_the_shards() {
    let listed = || {
        Event::AllShards(Ok(vec![
            Shard::new("a".to_string(), None, None),
            Shard::new("b".to_string(), Some("a".to_string()), None),
            Shard::new("b".to_string(), Some("a".to_string()), None),
        ]))
    };
    let parents = |action: &Action, position: ShardIteratorType| -> Vec<Option<String>> {
        match action {
            Action::GetShardIterators { requests, .. } => {
                assert!(requests.iter().all(|request| request.iterator_type == position));
                requests.iter().map(|request| request.parent_shard_id.clone()).collect()
            }
            other => panic!("{other:?}"),
        }
    };

    let (producer, action) = drive(
        new_producer(None),
        vec![Event::Begin, Event::StreamArn(Ok("arn".to_string())), listed()],
    );
    assert_eq!(ids_to_open(&action), vec!["a", "b", "b"]);
    assert_eq!(
        parents(&action, ShardIteratorType::Latest),
        vec![None, Some("a".to_string()), Some("a".to_string())]
    );

    let (_, action) = drive(
        producer,
        vec![
            opened(&["a"]),
            Event::InitSent,
            Event::Records(vec![(Some(open("a")), Ok(vec![]))]),
            listed(),
        ],
    );
    assert_eq!(ids_to_open(&action), vec!["b", "b"]);
    assert_eq!(
        parents(&action, ShardIteratorType::TrimHorizon),
        vec![Some("a".to_string()), Some("a".to_string())]
    );
}

/// The kinds of the actions of two rounds, from the very beginning.
fn kinds_of_two_rounds(interval: Option<Duration>) -> Vec<&'static str> {
    let round = || {
        vec![
            Event::Records(vec![
                (Some(open("a")), Ok(vec![record("1")])),
                (None, Ok(vec![record("2")])),
            ]),
            listed(&["a"]),
            opened(&[]),
            Event::ShouldClose(false),
            Event::Sent(true),
            Event::Sent(true),
        ]
    };
    let mut events = vec![
        Event::Begin,
        Event::StreamArn(Ok("arn".to_string())),
        listed(&["a"]),
        opened(&["a"]),
        Event::InitSent,
    ];
    for _ in 0..2 {
        events.extend(round());
        if interval.is_some() {
            events.push(Event::Slept);
        }
    }
    let mut kinds = vec![];
    let mut producer = new_producer(interval);
    let mut action;
    for event in events {
        (producer, action) = producer.step(event);
        kinds.push(match action {
            Action::GetRecords { .. } => "read",
            Action::Send(_) => "send",
            Action::Sleep(duration) => {
                assert_eq!(Some(duration), interval);
                "sleep"
            }
            Action::Stop => "stop",
            _ => "other",
        });
    }
    kinds.retain(|kind| *kind != "other");
    kinds
}

#[test]
fn one_pause_stands_between_two_rounds() {
    assert_eq!(
        kinds_of_two_rounds(Some(Duration::from_millis(10))),
        vec!["read", "send", "send", "sleep", "read", "send", "send", "sleep", "read"]
    );
    assert_eq!(
        kinds_of_two_rounds(None),
        vec!["read", "send", "send", "read", "send", "send", "read"]
    );
}

#[test]
fn answers_hand_over_shards_with_iterators() {
    let opened = vec![
        get_shard_iterator_outcome(Ok(Some("a-0".to_string())), "a", None),
        get_shard_iterator_outcome(Ok(None), "b", None),
    ];
    let (producer, action) = drive(
        new_producer(None),
        vec![
            Event::Begin,
            Event::StreamArn(Ok("arn".to_string())),
            listed(&["a", "b"]),
            Event::ShardIterators(opened),
            Event::InitSent,
        ],
    );
    assert_eq!(ids_to_read(&action), vec!["a"]);

    let more = RecordsPage { records: None, next_shard_iterator: Some("a-1".to_string()) };
    let done = RecordsPage { records: None, next_shard_iterator: None };
    let read = vec![
        read_outcome(get_records_outcome(Ok(more), open("a"))),
        read_outcome(get_records_outcome(Ok(done), open("c"))),
    ];
    let (_, action) = drive(
        producer,
        vec![
            Event::Records(read),
            listed(&["a"]),
            Event::ShardIterators(vec![]),
            Event::ShouldClose(false),
        ],
    );
    assert_eq!(ids_to_read(&action), vec!["a"]);
    match action {
        Action::GetRecords { lineages, .. } => {
            assert_eq!(lineages.shard(0).iterator(), Some("a-1"));
        }
        other => panic!("{other:?}"),
    }
}
