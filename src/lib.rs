//! Ingress of packet batches for a transaction pipeline: receiving them
//! from a channel, dropping those flagged upstream, deserializing and
//! admitting the rest, and tallying every rejection.
pub mod thread_limit;
pub mod stats;
pub mod pipeline;
pub mod accumulator;
