//! Pipelining engine of a PostgreSQL connection: batched request encoding,
//! flush accounting for a self-electing writer, ordered reply correlation,
//! and routing of inbound frames.

pub mod election;
pub mod parameters;
pub mod receiver;
pub mod registry;
pub mod request;
pub mod wire;
pub mod writer;
