//! A broadcast hub: connections subscribe to named topics and receive what is
//! published to them.
//!
//! The registry of live connections, the choice of recipients for a published
//! message and the decisions of a connection's lifecycle are verified here.
//! Sockets, locking and the encoding of messages belong to the program that
//! embeds the hub.

pub mod command;
pub mod dispatch;
pub mod handler;
pub mod outbound;
pub mod registry;
pub mod socket;

pub use registry::{Client, Clients};
