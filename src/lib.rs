//! A relay for signed publish/subscribe events: verification, filter matching,
//! the subscription registry, and the per-connection protocol engine.

pub mod event;
pub mod verify;
pub mod filter;
pub mod registry;
pub mod message;
pub mod relay;
pub mod session;
