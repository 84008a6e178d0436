//! An address-routed message-passing substrate for building node applications
//! out of independently addressable workers.
//!
//! Each node hosts a message router that dispatches inbound messages to worker
//! handlers keyed by destination address, a polling scheduler that gives every
//! worker periodic execution opportunity, and a secure-channel subsystem that
//! establishes point-to-point sessions between workers with a three-message
//! key-exchange handshake before any payload traffic flows.

pub mod address;
pub mod change_event;
pub mod channel;
pub mod error;
pub mod kex;
pub mod laws;
pub mod message;
pub mod node;
pub mod profile;
pub mod rng;
pub mod queue;
pub mod rule;
pub mod route;
pub mod router;
pub mod task;
pub mod transport;
pub mod views;
pub mod worker;

pub use address::Address;
pub use error::Error;
pub use message::Message;
pub use route::Route;
