//! An in-memory chat hub: a directory of registered users, a store of named
//! rooms with membership sets and append-only message logs, a fanout bus that
//! delivers published frames to every subscribed receiver, and the
//! per-connection session logic that bridges a duplex text stream to the bus.
//!
//! The hub itself is pure in-process state with explicit operation contracts;
//! the surrounding binary owns the sockets, the HTTP routing and the task
//! scheduling, and calls in here for every decision.

pub mod auth;
pub mod bus;
pub mod errors;
pub mod frames;
pub mod identity;
pub mod numerals;
pub mod rooms;
pub mod session;

pub use errors::HubError;
