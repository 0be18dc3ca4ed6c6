//! The OpenAI Responses adapter: wire values, stream decoding and account handling.
pub mod wire;
pub mod chat;
pub mod response_stream;
pub mod models;
pub mod request;
pub mod auth;
pub mod callback;
pub mod agent;
pub mod agent_stream;
pub mod service;
