//! A job-dispatch control plane over an external container engine.
//!
//! Users post a JSON request; a user-supplied transformation turns it into a
//! container manifest; the container is created under a grouping label and,
//! subject to a concurrency quota, started. Background loops admit pending
//! containers up to the quota and reap old exited ones.
//!
//! This crate is the verified core: every decision the system makes — which
//! containers to start or remove, how engine outcomes map to HTTP responses,
//! when a background loop must give up — is a function here with a contract.
//! The surrounding process (HTTP server, engine client, task runtime) performs
//! the I/O these decisions call for and feeds the outcomes back in.

pub mod cleaner;
pub mod dispatch;
pub mod engine;
pub mod labels;
pub mod metrics;
pub mod scheduler;
pub mod supervisor;
pub mod text;
pub mod ticker;
pub mod timestamp;
