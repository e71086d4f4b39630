//! Subscribe to the change records of a DynamoDB table.
//!
//! The crate holds the decisions of a DynamoDB Streams subscriber: which shards
//! are listed, opened and read, which results reach the consumer and in which
//! order, when polling stops, and how the answers of the AWS SDK are read. It
//! performs no request itself. [`stream::producer::DynamodbStreamProducer`]
//! names the next piece of work as an [`stream::event::Action`] and is told the
//! outcome as an [`stream::event::Event`].

pub mod client;
pub mod client_sdk;
pub mod error;
pub mod listing;
pub mod outside;
pub mod selection;
pub mod stream;
pub mod types;
