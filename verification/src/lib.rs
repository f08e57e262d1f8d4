//! availcheck: the logic of a Prometheus exporter that probes remote endpoints.

pub mod blocking_task;
pub mod config;
pub mod dns;
pub mod errors;
pub mod metrics;
pub mod net;
pub mod query_providers;
pub mod report;
pub mod server;
pub mod task;
pub mod task_history;
pub mod text;
pub mod time;
pub mod url_length;
pub mod walk;
