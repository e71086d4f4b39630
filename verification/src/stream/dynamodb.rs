//! The stream that a consumer reads, and its builder.

use crate::outside::duration_of_secs;
use crate::stream::model::ProducerView;
use crate::stream::producer::DynamodbStreamProducer;
use crate::types::initial_interator_type::InitialIteratorType;
use std::time::Duration;
use vstd::prelude::*;

verus! {

/// The seconds between two rounds of polling, unless set otherwise.
pub const DEFAULT_INTERVAL_SECS: u64 = 3;

/// The number of results that wait for the consumer, unless set otherwise.
pub const DEFAULT_BUFFER_SIZE: usize = 100;

/// Represent DynamoDB Stream.
///
/// `Receiver` is the end of the channel that the polling half sends results
/// through, and `ConsumerChannel` the line back to the polling half.
#[derive(Debug)]
pub struct DynamodbStream<Receiver, ConsumerChannel> {
    receiver: Receiver,
    channel: Option<ConsumerChannel>,
}

/// The contents of a [`DynamodbStream`].
pub struct StreamView<Receiver, ConsumerChannel> {
    /// Where the results come from.
    pub receiver: Receiver,
    /// The line back to the polling half, until it is taken.
    pub channel: Option<ConsumerChannel>,
}

impl<Receiver, ConsumerChannel> View for DynamodbStream<Receiver, ConsumerChannel> {
    type V = StreamView<Receiver, ConsumerChannel>;

    closed spec fn view(&self) -> StreamView<Receiver, ConsumerChannel> {
        StreamView { receiver: self.receiver, channel: self.channel }
    }
}

impl<Receiver, ConsumerChannel> StreamView<Receiver, ConsumerChannel> {
    /// The channel that is handed out, and the stream behind that.
    pub open spec fn take_channel(self) -> (Option<ConsumerChannel>, Self) {
        (self.channel, StreamView { receiver: self.receiver, channel: None })
    }
}

impl<Receiver, ConsumerChannel> DynamodbStream<Receiver, ConsumerChannel> {
    /// Creates a stream whose channel can be taken.
    pub fn new(receiver: Receiver, channel: ConsumerChannel) -> (stream: Self)
        ensures
            stream@ == (StreamView { receiver, channel: Some(channel) }),
    {
        Self { receiver, channel: Some(channel) }
    }

    /// Get the communication channel to the stream.
    ///
    /// Once you take a channel from this method, you can't take it anymore from
    /// the same stream because this method also passes the ownership of the
    /// channel.
    pub fn take_channel(&mut self) -> (channel: Option<ConsumerChannel>)
        ensures
            (channel, final(self)@) == old(self)@.take_channel(),
            channel == old(self)@.channel,
            final(self)@.channel is None,
            final(self)@.receiver == old(self)@.receiver,
    {
        self.channel.take()
    }

    /// Where the results come from.
    pub fn receiver(&mut self) -> (receiver: &mut Receiver)
        ensures
            *receiver == old(self)@.receiver,
            final(self)@ == (StreamView { receiver: *final(receiver), ..old(self)@ }),
    {
        &mut self.receiver
    }
}

/// The channel of a stream can be taken once, whatever the stream is: the second
/// attempt yields nothing, and no attempt changes where the results come from.
pub proof fn law_channel_is_taken_once<Receiver, ConsumerChannel>(
    receiver: Receiver,
    channel: ConsumerChannel,
)
    ensures
        ({
            let stream = StreamView { receiver, channel: Some(channel) };
            let (first, behind_first) = stream.take_channel();
            let (second, behind_second) = behind_first.take_channel();
            &&& first == Some(channel)
            &&& second is None
            &&& behind_second == behind_first
            &&& behind_second.receiver == receiver
        }),
{
}

/// A builder for [`DynamodbStream`].
#[derive(Debug)]
pub struct DynamodbStreamBuilder<Client> {
    table_name: String,
    client: Client,
    interval: Option<Duration>,
    buffer: usize,
    initial_iterator_type: InitialIteratorType,
}

/// The settings that a [`DynamodbStreamBuilder`] holds.
pub struct StreamSettings<Client> {
    /// The table.
    pub table_name: String,
    /// The client to perform the requests with.
    pub client: Client,
    /// The pause between two rounds of polling, if there is one.
    pub interval: Option<Duration>,
    /// The number of results that wait for the consumer.
    pub buffer: usize,
    /// Where the stream starts to read.
    pub initial_iterator_type: InitialIteratorType,
}

impl<Client> View for DynamodbStreamBuilder<Client> {
    type V = StreamSettings<Client>;

    closed spec fn view(&self) -> StreamSettings<Client> {
        StreamSettings {
            table_name: self.table_name,
            client: self.client,
            interval: self.interval,
            buffer: self.buffer,
            initial_iterator_type: self.initial_iterator_type,
        }
    }
}

/// What a stream is started from.
pub struct StreamParts<Client> {
    /// The polling half, which has not begun.
    pub producer: DynamodbStreamProducer<Client>,
    /// The capacity of the channel that it sends results through.
    pub buffer: usize,
}

impl<Client> DynamodbStreamBuilder<Client> {
    /// A buffer holds at least one result.
    #[verifier::type_invariant]
    spec fn has_buffer(self) -> bool {
        self.buffer > 0
    }

    /// Create a new `DynamodbStreamBuilder`.
    #[must_use]
    pub fn new(
        client: Client,
        table_name: String,
        initial_iterator_type: InitialIteratorType,
    ) -> (builder: Self)
        ensures
            builder@ == (StreamSettings {
                table_name,
                client,
                interval: Some(duration_of_secs(DEFAULT_INTERVAL_SECS)),
                buffer: DEFAULT_BUFFER_SIZE,
                initial_iterator_type,
            }),
    {
        Self {
            client,
            table_name,
            interval: Some(Duration::from_secs(DEFAULT_INTERVAL_SECS)),
            buffer: DEFAULT_BUFFER_SIZE,
            initial_iterator_type,
        }
    }

    /// Set interval between polling attempts. When None is provided there are no
    /// intervals between polling iterations.
    ///
    /// Setting any interval is optional. If you omit calling this method,
    /// `3 seconds` is used as default value.
    pub fn interval(self, interval: Option<Duration>) -> (builder: Self)
        ensures
            builder@ == (StreamSettings { interval, ..self@ }),
    {
        proof {
            use_type_invariant(&self);
        }
        Self { interval, ..self }
    }

    /// Set the number of results that are stored unless they are consumed. Once
    /// the buffer is full, polling waits until a result is consumed.
    ///
    /// Setting buffer size is optional. If you omit calling this method,
    /// `100` is used as default value.
    pub fn buffer(self, buffer: usize) -> (builder: Self)
        requires
            buffer != 0,
        ensures
            builder@ == (StreamSettings { buffer, ..self@ }),
    {
        Self { buffer, ..self }
    }

    /// Consumes the builder and constructs what the stream is started from: the
    /// polling half, and the capacity of the channel to the consumer. The stream
    /// starts at one position in all shards, so not at a checkpoint.
    pub fn build(self) -> (parts: StreamParts<Client>)
        requires
            self@.initial_iterator_type.spec_shard_iterator_type() is Some,
        ensures
            parts.producer@ == ProducerView::new(
                self@.table_name@,
                self@.interval,
                self@.initial_iterator_type.spec_shard_iterator_type()->0,
            ),
            parts.producer@.table_name == self@.table_name@,
            parts.producer@.interval == self@.interval,
            parts.producer.spec_client() == self@.client,
            parts.buffer == self@.buffer,
            parts.buffer > 0,
    {
        proof {
            use_type_invariant(&self);
        }
        let iterator_type = self.initial_iterator_type.shard_iterator_type().unwrap();
        StreamParts {
            producer: DynamodbStreamProducer::new(
                self.client,
                self.table_name,
                self.interval,
                iterator_type,
            ),
            buffer: self.buffer,
        }
    }
}

} // verus!
