//! Verified logic of the Magenta chat client's provider and storage adapters.
pub mod text;
pub mod codec;
pub mod sse;
pub mod domain;
pub mod demo;
pub mod keyed;
pub mod openai;
pub mod storage;
pub mod http;
