//! The stream of change records and the polling half that feeds it.

pub mod dynamodb;
pub mod event;
pub mod laws;
pub mod model;
pub mod producer;
pub mod rounds;
