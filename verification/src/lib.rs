//! The transport core of a chat bot for a streaming platform's IRC-style
//! chat: connection lifecycle, wire-line parsing and framing, a per-channel
//! leaky bucket and a process-wide join limiter, and the sharding pool that
//! spreads thousands of channels over capped connections — with the rate
//! and lifecycle guarantees stated as contracts and proved.
//!
//! Everything here is modelled over plain values and a caller-supplied
//! millisecond clock; sockets and task scheduling belong to the embedding
//! process, which acts on the decisions these types return.

pub mod bibles;
pub mod chat;
pub mod commands;
pub mod common;
pub mod data;
pub mod response_builder;
pub mod strutil;
