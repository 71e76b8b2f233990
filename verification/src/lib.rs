//! Verified core of a location-tracking service.
//!
//! Clients post GPS points and retrieve them either by query or by a live
//! long-poll that blocks until the next point arrives.  The heart of the
//! library is the live-update machinery: a channel-key codec that maps a
//! (client, secret) session to a wire-safe token, an in-memory registry of
//! waiting requests keyed by that token, and the bounded-batch dispatch step
//! that wakes exactly the right waiters when a database notification fires.

pub mod codec;
pub mod db;
pub mod dispatch;
pub mod http;
pub mod ids;
pub mod notifier;
pub mod registry;
pub mod types;
pub mod util;
