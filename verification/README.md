# dynamo_subscriber

Subscribe to the change records of a DynamoDB table.

`src/` is the verified library. It decides what a subscriber does: which shards
are listed, opened and read, which results reach the consumer and in which order,
when polling stops, and how the answers of the AWS SDK are read. It performs no
request.

* `client_sdk`: from the answers and errors of the SDK to shards and records.
* `listing`: all shards of a stream, page by page.
* `types`: shards, their lineages, the requests that list and open them, and
  start positions.
* `stream::producer`: the polling half, as a step from an event to the next
  action; `stream::model` states what a step is, and `stream::laws` what holds of
  polling as a whole.
* `stream::dynamodb`, `client`: the stream, the client and their builders.
* `outside`: the types of the AWS SDK that pass through unread, and the tests by
  which its errors are told apart.

`app/` performs the actions: it talks to AWS, runs the polling task and emits the
results as a Rust `Stream`.
