//! Length-prefixed binary wire protocol and name-based message router for a
//! multi-client relay.
pub mod codec;
pub mod types;
pub mod commands;
pub mod message;
pub mod response;
pub mod frame;
pub mod registry;
pub mod router;
