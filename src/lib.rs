//! Resource orchestration core of a competitive-programming workbench:
//! document sessions, supervised processes, the ingestion listener and the
//! outbound event bridge, together with the configuration and message types
//! they share.

pub mod text;
pub mod language;
pub mod config;
pub mod ids;
pub mod params;
pub mod catalog;
pub mod document;
pub mod process;
pub mod events;
pub mod listener;
pub mod message;
pub mod ingest;
pub mod commands;
