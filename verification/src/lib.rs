//! A minimal durable key-value store: an append-only record log replayed
//! into an in-memory index, a line-oriented command protocol, and the
//! per-connection decision logic of a small server built on top of them.

pub mod client;
pub mod command;
pub mod engine;
pub mod handler;
pub mod index;
pub mod log;
pub mod text;
