//! Task model, recursion-tree scheduling and byte framing for a sharded
//! proving pipeline.
pub mod constants;
pub mod task;
pub mod text;
pub mod compose;
pub mod buffer;
pub mod serialization;
