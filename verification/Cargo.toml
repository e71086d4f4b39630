[package]
name = "dynamo_subscriber"
version = "0.1.0"
edition = "2021"
publish = false

[dependencies]
async-trait = "0.1"
aws-config = "1"
aws-sdk-dynamodb = "1"
aws-sdk-dynamodbstreams = "1"
aws-smithy-runtime-api = { version = "1", features = ["client"] }
aws-smithy-types = "1"
tokio = { version = "1", features = ["macros", "rt-multi-thread", "sync", "time"] }
tokio-stream = "0.1"
tracing = "0.1"

