//! Invoice-ingestion core: folder-watch planning, debounced change detection,
//! idempotent processing orchestration, and record bookkeeping for an invoice
//! tracking application.

pub mod amounts;
pub mod coordinator;
pub mod crypto;
pub mod dates;
pub mod extraction;
pub mod fingerprint;
pub mod laws;
pub mod models;
pub mod overrides;
pub mod processor;
pub mod settings;
pub mod stamps;
pub mod store;
pub mod text;
pub mod watcher;
