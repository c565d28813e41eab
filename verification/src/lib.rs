//! Core logic of a candlestick-strategy backtesting server: expansion of a
//! parameter sweep into concrete strategy descriptors, partitioning of that
//! workload across parallel workers, progress aggregation, result merging and
//! filtering, and the FIFO job-queue managers that drive background work.

pub mod naming;
pub mod partition;
pub mod progress;
pub mod queue;
pub mod results;
pub mod server;
pub mod sweep;
