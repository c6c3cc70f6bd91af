//! A client for a small HTTP API with one operation: fetching a fruit.
//!
//! The library holds everything about the operation that can be stated and
//! checked: which request the operation issues, what the body of a successful
//! response must look like, and how the transport's outcome becomes the
//! operation's result. The transport itself (connectors, sockets, futures)
//! lives outside, around the library: it executes the request descriptors
//! produced here and hands the raw outcome back in.

pub mod codec;
pub mod configuration;
pub mod default_api;
pub mod models;
pub mod request;
pub mod response;
