//! Measurement engine for per-token latency benchmarks of a streaming
//! text-completion service: an incremental stream parser that extracts
//! token-arrival timing, retry backoff policy, and failure-tolerant
//! aggregation of per-request metrics into one summary record per run.

pub mod aggregate;
pub mod config;
pub mod corpus;
pub mod errors;
pub mod metrics;
pub mod output;
pub mod protocol;
pub mod retry;
pub mod stream;
