//! A resilient chunked-upload engine: an exponential backoff policy, a failure
//! classifier, counting concurrency gates and the decision core of a chunk
//! upload that submits, waits, and retries transient failures.

pub mod attempts;
pub mod backoff;
pub mod classify;
pub mod gate;
pub mod upload;
