//! Ingestion core of an error-reporting service: fingerprinting of occurrence
//! titles, quota accounting, the report state machine, bounded event
//! retention, usage statistics and notification planning.
pub mod account;
pub mod api_response;
pub mod error;
pub mod event;
pub mod events;
pub mod fingerprint;
pub mod ingest;
pub mod laws;
pub mod model;
pub mod notify;
pub mod quota;
pub mod reports;
pub mod stats;
pub mod text;
