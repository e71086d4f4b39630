//! The client that streams are opened from.

use crate::outside::duration_of_secs;
use crate::stream::dynamodb::{
    DynamodbStreamBuilder, StreamParts, DEFAULT_BUFFER_SIZE, DEFAULT_INTERVAL_SECS,
};
use crate::stream::event::{ActionView, Event};
use crate::stream::laws::{
    action_at, law_one_pause_between_rounds, law_pauses_last_the_interval, state_at,
};
use crate::stream::model::{PhaseView, ProducerView};
use crate::types::initial_interator_type::{InitialIteratorType, ShardIteratorType};
use crate::types::shard::Shard;
use aws_config::SdkConfig;
use std::time::Duration;
use vstd::prelude::*;

verus! {

/// A client for the stream of one table.
#[derive(Debug)]
pub struct Client<SDKClient> {
    sdk_client: SDKClient,
    table_name: String,
    interval: Option<Duration>,
    buffer: usize,
}

/// The settings that a [`Client`] holds.
pub struct ClientSettings<SDKClient> {
    /// The client to perform the requests with.
    pub sdk_client: SDKClient,
    /// The table.
    pub table_name: String,
    /// The pause between two rounds of polling, if there is one.
    pub interval: Option<Duration>,
    /// The number of results that wait for the consumer.
    pub buffer: usize,
}

impl<SDKClient> View for Client<SDKClient> {
    type V = ClientSettings<SDKClient>;

    closed spec fn view(&self) -> ClientSettings<SDKClient> {
        ClientSettings {
            sdk_client: self.sdk_client,
            table_name: self.table_name,
            interval: self.interval,
            buffer: self.buffer,
        }
    }
}

impl<SDKClient: Clone> Clone for Client<SDKClient> {
    fn clone(&self) -> (client: Self)
        ensures
            cloned(self@.sdk_client, client@.sdk_client),
            client@ == (ClientSettings { sdk_client: client@.sdk_client, ..self@ }),
    {
        proof {
            use_type_invariant(self);
        }
        Self {
            sdk_client: self.sdk_client.clone(),
            table_name: self.table_name.clone(),
            interval: self.interval,
            buffer: self.buffer,
        }
    }
}

impl<SDKClient> ClientSettings<SDKClient> {
    /// Whether a stream is started from these settings at a position.
    pub open spec fn starts(
        self,
        parts: StreamParts<SDKClient>,
        iterator_type: ShardIteratorType,
    ) -> bool {
        &&& parts.producer@ == ProducerView::new(self.table_name@, self.interval, iterator_type)
        &&& parts.buffer == self.buffer
        &&& parts.buffer > 0
    }
}

impl<SDKClient> Client<SDKClient> {
    /// A buffer holds at least one result.
    #[verifier::type_invariant]
    spec fn has_buffer(self) -> bool {
        self.buffer > 0
    }

    /// Create a builder for the stream of a table.
    #[must_use]
    pub fn builder(sdk_config: SdkConfig, table_name: String) -> (builder: ClientBuilder)
        ensures
            builder@ == ClientBuilderSettings::new(sdk_config, table_name),
    {
        ClientBuilder::new(sdk_config, table_name)
    }

    /// Create a client for the stream of a table.
    #[must_use]
    pub fn new(client: SDKClient, table_name: String) -> (created: Self)
        ensures
            created@ == (ClientSettings {
                sdk_client: client,
                table_name,
                interval: Some(duration_of_secs(DEFAULT_INTERVAL_SECS)),
                buffer: DEFAULT_BUFFER_SIZE,
            }),
    {
        Self {
            sdk_client: client,
            table_name,
            interval: Some(Duration::from_secs(DEFAULT_INTERVAL_SECS)),
            buffer: DEFAULT_BUFFER_SIZE,
        }
    }
}

impl<SDKClient: Clone> Client<SDKClient> {
    /// Open the stream at a position.
    fn stream_from(&self, initial_iterator_type: InitialIteratorType) -> (parts: StreamParts<
        SDKClient,
    >)
        requires
            initial_iterator_type.spec_shard_iterator_type() is Some,
        ensures
            self@.starts(parts, initial_iterator_type.spec_shard_iterator_type()->0),
            parts.producer@.table_name == self@.table_name@,
            parts.producer@.interval == self@.interval,
            parts.buffer == self@.buffer,
            cloned(self@.sdk_client, parts.producer.spec_client()),
    {
        proof {
            use_type_invariant(self);
        }
        DynamodbStreamBuilder::new(
            self.sdk_client.clone(),
            self.table_name.clone(),
            initial_iterator_type,
        ).interval(self.interval).buffer(self.buffer).build()
    }

    /// Open the stream for what is written from now on.
    #[must_use]
    pub fn stream_from_latest(&self) -> (parts: StreamParts<SDKClient>)
        ensures
            self@.starts(parts, ShardIteratorType::Latest),
            parts.producer@.table_name == self@.table_name@,
            parts.producer@.interval == self@.interval,
            parts.buffer == self@.buffer,
            cloned(self@.sdk_client, parts.producer.spec_client()),
    {
        self.stream_from(InitialIteratorType::Latest)
    }

    /// Open the stream for everything that it still holds.
    #[must_use]
    pub fn stream_from_trim_horizon(&self) -> (parts: StreamParts<SDKClient>)
        ensures
            self@.starts(parts, ShardIteratorType::TrimHorizon),
            parts.producer@.table_name == self@.table_name@,
            parts.producer@.interval == self@.interval,
            parts.buffer == self@.buffer,
            cloned(self@.sdk_client, parts.producer.spec_client()),
    {
        self.stream_from(InitialIteratorType::TrimHorizon)
    }
}

/// A builder for [`Client`].
#[derive(Debug)]
pub struct ClientBuilder {
    sdk_config: SdkConfig,
    table_name: String,
    interval: Option<Duration>,
    buffer: usize,
}

/// The settings that a [`ClientBuilder`] holds.
pub struct ClientBuilderSettings {
    /// What the client of the SDK is made from.
    pub sdk_config: SdkConfig,
    /// The table.
    pub table_name: String,
    /// The pause between two rounds of polling, if there is one.
    pub interval: Option<Duration>,
    /// The number of results that wait for the consumer.
    pub buffer: usize,
}

impl View for ClientBuilder {
    type V = ClientBuilderSettings;

    closed spec fn view(&self) -> ClientBuilderSettings {
        ClientBuilderSettings {
            sdk_config: self.sdk_config,
            table_name: self.table_name,
            interval: self.interval,
            buffer: self.buffer,
        }
    }
}

impl ClientBuilderSettings {
    /// The settings to begin with.
    pub open spec fn new(sdk_config: SdkConfig, table_name: String) -> Self {
        ClientBuilderSettings {
            sdk_config,
            table_name,
            interval: Some(duration_of_secs(DEFAULT_INTERVAL_SECS)),
            buffer: DEFAULT_BUFFER_SIZE,
        }
    }
}

impl ClientBuilder {
    /// A buffer holds at least one result.
    #[verifier::type_invariant]
    spec fn has_buffer(self) -> bool {
        self.buffer > 0
    }

    /// Create a builder for the stream of a table.
    pub fn new(sdk_config: SdkConfig, table_name: String) -> (builder: Self)
        ensures
            builder@ == ClientBuilderSettings::new(sdk_config, table_name),
    {
        Self {
            sdk_config,
            table_name,
            interval: Some(Duration::from_secs(DEFAULT_INTERVAL_SECS)),
            buffer: DEFAULT_BUFFER_SIZE,
        }
    }

    /// Set the pause between two rounds of polling.
    #[must_use]
    pub fn interval(self, interval: Option<Duration>) -> (builder: Self)
        ensures
            builder@ == (ClientBuilderSettings { interval, ..self@ }),
    {
        proof {
            use_type_invariant(&self);
        }
        Self { interval, ..self }
    }

    /// Set the number of results that wait for the consumer.
    #[must_use]
    pub fn buffer(self, buffer: usize) -> (builder: Self)
        requires
            buffer != 0,
        ensures
            builder@ == (ClientBuilderSettings { buffer, ..self@ }),
    {
        Self { buffer, ..self }
    }

    /// Create the client. `connect` makes the client of the SDK from the
    /// configuration.
    pub fn build<SDKClient, Connect: FnOnce(&SdkConfig) -> SDKClient>(
        self,
        connect: Connect,
    ) -> (client: Client<SDKClient>)
        requires
            connect.requires((&self@.sdk_config,)),
        ensures
            connect.ensures((&self@.sdk_config,), client@.sdk_client),
            client@ == (ClientSettings {
                sdk_client: client@.sdk_client,
                table_name: self@.table_name,
                interval: self@.interval,
                buffer: self@.buffer,
            }),
    {
        proof {
            use_type_invariant(&self);
        }
        let sdk_client = connect(&self.sdk_config);
        Client {
            sdk_client,
            table_name: self.table_name,
            interval: self.interval,
            buffer: self.buffer,
        }
    }
}

/// A stream has the table, the interval and the buffer of the settings that it is
/// started from, whatever they are, and begins at the position that it is started
/// at.
pub proof fn law_streams_have_the_settings<SDKClient>(
    settings: ClientSettings<SDKClient>,
    parts: StreamParts<SDKClient>,
    iterator_type: ShardIteratorType,
)
    requires
        settings.starts(parts, iterator_type),
    ensures
        parts.producer@.table_name == settings.table_name@,
        parts.producer@.interval == settings.interval,
        parts.producer@.phase == PhaseView::Idle(iterator_type),
        parts.producer@.shards is None,
        parts.buffer == settings.buffer,
        parts.buffer > 0,
{
}

/// Every pause of a stream lasts what was set: between two rounds there is one
/// pause of the interval of the settings, and no other, and none at all where no
/// interval is set.
pub proof fn law_streams_pause_as_set<SDKClient>(
    settings: ClientSettings<SDKClient>,
    parts: StreamParts<SDKClient>,
    iterator_type: ShardIteratorType,
    events: Seq<Event>,
    i: nat,
    j: nat,
    k: nat,
)
    requires
        settings.starts(parts, iterator_type),
        i < j,
        action_at(parts.producer@, events, i) is GetRecords,
        action_at(parts.producer@, events, j) is GetRecords,
        forall|l: nat|
            i < l < j ==> !(#[trigger] action_at(parts.producer@, events, l) is GetRecords),
    ensures
        action_at(parts.producer@, events, k) matches ActionView::Sleep(duration)
            ==> settings.interval == Some(duration),
        settings.interval matches Some(duration) ==> i < j - 1 && action_at(
            parts.producer@,
            events,
            (j - 1) as nat,
        ) == ActionView::Sleep(duration),
        i < k < j - 1 ==> !(action_at(parts.producer@, events, k) is Sleep),
{
    law_pauses_last_the_interval(parts.producer@, events, k);
    law_one_pause_between_rounds(parts.producer@, events, i, j);
}

/// A stream asks for the table of the settings that it is started from, and opens
/// the listed shards at the position that it is started at.
pub proof fn law_streams_open_the_table_at_the_position<SDKClient>(
    settings: ClientSettings<SDKClient>,
    parts: StreamParts<SDKClient>,
    iterator_type: ShardIteratorType,
    found: String,
    listed: Vec<Shard>,
    events: Seq<Event>,
    k: int,
)
    requires
        settings.starts(parts, iterator_type),
        events.len() >= 3,
        events[0] == Event::Begin,
        events[1] == Event::StreamArn(Ok(found)),
        events[2] == Event::AllShards(Ok(listed)),
        0 <= k < listed@.len(),
    ensures
        action_at(parts.producer@, events, 0) == (ActionView::GetStreamArn {
            table_name: settings.table_name@,
        }),
        action_at(parts.producer@, events, 2) matches ActionView::GetShardIterators {
            requests,
            ..
        } && requests.len() == listed@.len() && requests[k].iterator_type == iterator_type
            && requests[k].shard_id == listed@[k]@.id && requests[k].stream_arn == found@,
{
    reveal_with_fuel(state_at, 4);
}

/// A new builder has the table and the configuration that it is given, and unless
/// set otherwise a stream pauses three seconds and has room for a hundred results.
pub proof fn law_new_builder_has_what_it_is_given(sdk_config: SdkConfig, table_name: String)
    ensures
        ({
            let settings = ClientBuilderSettings::new(sdk_config, table_name);
            &&& settings.sdk_config == sdk_config
            &&& settings.table_name == table_name
            &&& settings.interval == Some(duration_of_secs(3))
            &&& settings.buffer == 100
        }),
{
}

} // verus!
