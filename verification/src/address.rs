//! Routable identifiers for workers and transport endpoints.
//!
//! An [`Address`] is a value type, copied freely, with structural equality.
//! Worker addresses are opaque byte strings; transport addresses carry a
//! plain socket endpoint. Exactly one transport router instance exists per
//! node for each transport class, reachable at a well-known zero endpoint,
//! so dispatch maps every transport address onto that single well-known
//! address.

use vstd::prelude::*;

verus! {

/// A socket endpoint held as plain values: four IPv4 octets and a port.
#[derive(Clone, Copy, Debug, PartialEq, Eq, Structural)]
pub struct SocketEndpoint {
    pub ip0: u8,
    pub ip1: u8,
    pub ip2: u8,
    pub ip3: u8,
    pub port: u16,
}

impl SocketEndpoint {
    /// The all-zero endpoint, used as the well-known address of a node's
    /// single transport router instance.
    pub fn zero() -> (r: SocketEndpoint)
        ensures
            r == SocketEndpoint::zero_spec(),
    {
        SocketEndpoint { ip0: 0, ip1: 0, ip2: 0, ip3: 0, port: 0 }
    }

    /// The value `zero` returns.
    pub open spec fn zero_spec() -> SocketEndpoint {
        SocketEndpoint { ip0: 0, ip1: 0, ip2: 0, ip3: 0, port: 0 }
    }
}

/// The coarse class of an address.
#[derive(Clone, Copy, Debug, PartialEq, Eq, Structural)]
pub enum AddressType {
    Worker,
    Tcp,
    Udp,
}

/// An opaque routable identifier: a worker id or a transport endpoint.
#[derive(Debug)]
pub enum Address {
    /// A worker's identifier, a variable-length opaque byte string.
    WorkerAddress(Vec<u8>),
    /// A TCP endpoint.
    TcpAddress(SocketEndpoint),
    /// A UDP endpoint.
    UdpAddress(SocketEndpoint),
}

/// The mathematical value of an [`Address`].
pub enum AddressView {
    WorkerAddress(Seq<u8>),
    TcpAddress(SocketEndpoint),
    UdpAddress(SocketEndpoint),
}

impl View for Address {
    type V = AddressView;

    open spec fn view(&self) -> AddressView {
        match self {
            Address::WorkerAddress(bytes) => AddressView::WorkerAddress(bytes@),
            Address::TcpAddress(e) => AddressView::TcpAddress(*e),
            Address::UdpAddress(e) => AddressView::UdpAddress(*e),
        }
    }
}

impl DeepView for Address {
    type V = AddressView;

    open spec fn deep_view(&self) -> AddressView {
        self@
    }
}

impl AddressView {
    /// The coarse class of an abstract address.
    pub open spec fn address_type(self) -> AddressType {
        match self {
            AddressView::WorkerAddress(_) => AddressType::Worker,
            AddressView::TcpAddress(_) => AddressType::Tcp,
            AddressView::UdpAddress(_) => AddressType::Udp,
        }
    }

    /// The address a message with this front address is dispatched to:
    /// worker addresses stand for themselves, while every transport address
    /// maps to its class's single well-known zero-endpoint address.
    pub open spec fn dispatch_address(self) -> AddressView {
        match self {
            AddressView::WorkerAddress(bytes) => AddressView::WorkerAddress(bytes),
            AddressView::TcpAddress(_) => AddressView::TcpAddress(SocketEndpoint::zero_spec()),
            AddressView::UdpAddress(_) => AddressView::UdpAddress(SocketEndpoint::zero_spec()),
        }
    }
}

impl Clone for Address {
    fn clone(&self) -> (r: Self)
        ensures
            r@ == self@,
    {
        match self {
            Address::WorkerAddress(bytes) => Address::WorkerAddress(copy_bytes(bytes)),
            Address::TcpAddress(e) => Address::TcpAddress(*e),
            Address::UdpAddress(e) => Address::UdpAddress(*e),
        }
    }
}

impl PartialEq for Address {
    fn eq(&self, other: &Self) -> (r: bool) {
        match (self, other) {
            (Address::WorkerAddress(a), Address::WorkerAddress(b)) => {
                let r = bytes_eq(a, b);
                proof {
                    if a@ == b@ {
                        assert(self@ == other@);
                    } else {
                        assert(self@ != other@);
                    }
                }
                r
            },
            (Address::TcpAddress(a), Address::TcpAddress(b)) => *a == *b,
            (Address::UdpAddress(a), Address::UdpAddress(b)) => *a == *b,
            _ => false,
        }
    }
}

impl Eq for Address {}

impl vstd::std_specs::cmp::PartialEqSpecImpl for Address {
    open spec fn obeys_eq_spec() -> bool {
        true
    }

    open spec fn eq_spec(&self, other: &Self) -> bool {
        self@ == other@
    }
}

impl Address {
    /// The coarse class of this address.
    pub fn address_type(&self) -> (t: AddressType)
        ensures
            t == self@.address_type(),
    {
        match self {
            Address::WorkerAddress(_) => AddressType::Worker,
            Address::TcpAddress(_) => AddressType::Tcp,
            Address::UdpAddress(_) => AddressType::Udp,
        }
    }

    /// The address this one is dispatched to: itself for worker addresses,
    /// the well-known zero-endpoint address for transport addresses.
    pub fn dispatch_address(&self) -> (r: Address)
        ensures
            r@ == self@.dispatch_address(),
    {
        match self {
            Address::WorkerAddress(bytes) => Address::WorkerAddress(copy_bytes(bytes)),
            Address::TcpAddress(_) => Address::TcpAddress(SocketEndpoint::zero()),
            Address::UdpAddress(_) => Address::UdpAddress(SocketEndpoint::zero()),
        }
    }

    /// The byte string of a worker address; empty for transport addresses.
    pub fn as_u8(&self) -> (r: Vec<u8>)
        ensures
            r@ == self@.worker_bytes(),
    {
        match self {
            Address::WorkerAddress(bytes) => copy_bytes(bytes),
            _ => Vec::new(),
        }
    }
}

impl AddressView {
    /// The byte string of an abstract worker address; empty otherwise.
    pub open spec fn worker_bytes(self) -> Seq<u8> {
        match self {
            AddressView::WorkerAddress(bytes) => bytes,
            _ => Seq::empty(),
        }
    }
}

/// Copies a byte string.
pub fn copy_bytes(bytes: &Vec<u8>) -> (r: Vec<u8>)
    ensures
        r@ == bytes@,
{
    let mut r: Vec<u8> = Vec::new();
    let mut i: usize = 0;
    while i < bytes.len()
        invariant
            i <= bytes.len(),
            r@ == bytes@.subrange(0, i as int),
        decreases bytes.len() - i,
    {
        r.push(bytes[i]);
        assert(r@ =~= bytes@.subrange(0, i + 1));
        i = i + 1;
    }
    assert(r@ =~= bytes@);
    r
}

/// Compares two byte strings for equality.
pub fn bytes_eq(a: &Vec<u8>, b: &Vec<u8>) -> (r: bool)
    ensures
        r == (a@ == b@),
{
    if a.len() != b.len() {
        assert(a@ != b@);
        return false;
    }
    let mut i: usize = 0;
    while i < a.len()
        invariant
            i <= a.len(),
            a@.len() == b@.len(),
            forall|j: int| 0 <= j < i ==> a@[j] == b@[j],
        decreases a.len() - i,
    {
        if a[i] != b[i] {
            assert(a@ != b@);
            return false;
        }
        i = i + 1;
    }
    assert(a@ =~= b@);
    true
}

} // verus!
