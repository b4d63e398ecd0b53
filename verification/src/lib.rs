//! Core logic of a desktop job runner: a single-worker job queue, a pipeline
//! orchestrator that drives ordered steps to completion, an auto-retry
//! scheduler with exponential backoff, and a schema-versioned state store
//! envelope. All state transitions are verified; file and process I/O stay
//! outside the crate and hand plain values in and out.

pub mod artifacts;
pub mod config;
pub mod errors;
pub mod library;
pub mod outcome;
pub mod shortcut;
pub mod orchestrator;
pub mod pipeline;
pub mod html;
pub mod identifier;
pub mod jobs;
pub mod templates;
pub mod retry;
pub mod scheduler;
pub mod settings;
pub mod status;
pub mod store;
pub mod text;
