//! Download orchestration core: transfer execution, a concurrency limiter,
//! cancellation and pause registries, persistence-store models with
//! single-writer queues, and the session orchestrator.

pub mod assoc;
pub mod downloader;
pub mod filename;
pub mod limiter;
pub mod model;
pub mod paths;
pub mod progress;
pub mod registry;
pub mod session;
pub mod store;
pub mod strutil;
pub mod table;
pub mod transfer;
pub mod trusted;
pub mod writer;
