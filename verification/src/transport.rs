//! The interfaces a transport implementation offers the node.
//!
//! Transports do socket I/O and therefore live outside the verified
//! library; they reach the node only through plain messages. These
//! declarations are the seam an embedding program implements.

use crate::error::Error;
use crate::queue::Addressable;
use vstd::prelude::*;

verus! {

/// An outbound connection: consumes messages whose front route address
/// names its endpoint.
pub trait Connector<T>: Sized {
    /// Hands one message to the transport for sending.
    fn send_message(&mut self, message: T) -> Result<(), Error>;
}

/// An inbound endpoint bound to an address.
pub trait Listener<T>: Addressable {
    /// Starts accepting traffic.
    fn listen(&mut self) -> Result<(), Error>;
}

} // verus!
