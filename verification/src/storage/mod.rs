//! Local persistence: store handles, record decoding, search and settings.
pub mod database;
pub mod agent;
pub mod records;
pub mod turns;
pub mod search;
pub mod attachments;
pub mod settings;
pub mod traces;
