//! The plain data that the subscriber works on.

pub mod checkpoint;
pub mod initial_interator_type;
pub mod lineages;
pub mod output;
pub mod request;
pub mod shard;
