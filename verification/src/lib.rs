//! Log forwarding for an API gateway: every rendered log line becomes an OTLP
//! record, waits in a bounded queue and leaves it in batches.

pub mod attributes;
pub mod config;
pub mod export;
pub mod json;
pub mod laws;
pub mod otel;
pub mod policy;
pub mod queue;
pub mod script;
pub mod text;
