//! A thin RPC framework core: lease-backed service registration in a
//! coordination store, watch-based discovery feeding a balanced channel,
//! and a per-path adaptive admission breaker.
//!
//! The asynchronous plumbing (store connections, transport, signals) lives
//! outside this crate; everything here is verified logic on plain values.

pub mod breaker;
pub mod client;
pub mod codec;
pub mod common;
pub mod discovery;
pub mod register;
pub mod server;
pub mod strutil;
