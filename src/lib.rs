//! Counting line terminators in byte inputs, sequentially over a stream of
//! buffers or in parallel over fixed partitions of a mapped file.

pub mod dispatch;
pub mod error;
pub mod partition;
pub mod report;
pub mod scan;
pub mod stream;
