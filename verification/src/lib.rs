//! Core of a change-data replication pipeline: a uniform event model,
//! a bounded FIFO buffer with backpressure, a monotonic position checkpoint,
//! and the decision logic of a stream-consumer extractor.

pub mod buffer;
pub mod consumer;
pub mod dt_data;
pub mod error;
pub mod extractor;
pub mod meta;
pub mod position;
pub mod shutdown;
pub mod strutil;
pub mod syncer;
pub mod task_util;
