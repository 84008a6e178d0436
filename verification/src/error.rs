//! The error kinds a node can report.
//!
//! Every kind is fatal to the poll cycle that produced it and propagates
//! synchronously up to the node scheduler, which terminates the run loop.
//! There is no automatic retry and no partial-failure isolation between
//! workers.

use vstd::prelude::*;

verus! {

/// A fatal routing, transport or handshake error.
#[derive(Clone, Copy, Debug, PartialEq, Eq, Structural)]
pub enum Error {
    /// A message reached the router with an empty onward route.
    NoRouteSupplied,
    /// A message's front onward address has no registered handler.
    NoHandlerForAddress,
    /// A transport failed to bind its listening endpoint.
    TransportBindFailure,
    /// A transport failed to reach a remote endpoint.
    TransportConnectFailure,
    /// A message type is incompatible with the current handshake state.
    ProtocolStateError,
    /// A key-exchange step failed during the handshake.
    KeyExchangeFailure,
    /// A worker's callback could not run.
    WorkerRuntime,
}

impl Error {
    /// A short diagnostic name for the error kind.
    pub fn as_str(&self) -> (r: &'static str)
        ensures
            r@ == self.name_spec(),
    {
        match self {
            Error::NoRouteSupplied => "no route supplied",
            Error::NoHandlerForAddress => "no handler for address",
            Error::TransportBindFailure => "transport bind failure",
            Error::TransportConnectFailure => "transport connect failure",
            Error::ProtocolStateError => "protocol state error",
            Error::KeyExchangeFailure => "key exchange failure",
            Error::WorkerRuntime => "worker runtime failure",
        }
    }

    /// What `as_str` returns for each kind.
    pub open spec fn name_spec(&self) -> Seq<char> {
        match self {
            Error::NoRouteSupplied => "no route supplied"@,
            Error::NoHandlerForAddress => "no handler for address"@,
            Error::TransportBindFailure => "transport bind failure"@,
            Error::TransportConnectFailure => "transport connect failure"@,
            Error::ProtocolStateError => "protocol state error"@,
            Error::KeyExchangeFailure => "key exchange failure"@,
            Error::WorkerRuntime => "worker runtime failure"@,
        }
    }
}

} // verus!
