use ockam::address::{Address, AddressType, SocketEndpoint};
use ockam::message::{Message, MessageBuilder, MessageType, MAX_MESSAGE_SIZE};
use ockam::route::Route;
use ockam::Error;

fn worker_address(name: &str) -> Address {
    Address::WorkerAddress(name.as_bytes().to_vec())
}

#[test]
fn test_message_empty() {
    let m = Message::empty();
    assert_eq!(m.message_type, MessageType::Payload);
    assert_eq!(m.onward_route.addresses.len(), 0);
    assert_eq!(m.return_route.addresses.len(), 0);
    assert_eq!(m.payload.len(), 0);
}

#[test]
fn test_message_route_editing() {
    let mut m = Message::empty();
    m.onward_add(worker_address("hop1"));
    m.onward_add(worker_address("hop2"));
    m.return_add(worker_address("home"));
    assert_eq!(m.onward_route.addresses.len(), 2);
    assert_eq!(m.onward_route.addresses[0], worker_address("hop1"));
    assert_eq!(m.onward_route.addresses[1], worker_address("hop2"));
    assert_eq!(m.return_route.addresses, vec![worker_address("home")]);
}

#[test]
fn test_message_builder() {
    let m = MessageBuilder::message()
        .message_type(MessageType::Control)
        .payload(b"payload bytes".to_vec())
        .onward_to(worker_address("there"))
        .return_to(worker_address("back"))
        .build();
    assert_eq!(m.message_type, MessageType::Control);
    assert_eq!(m.payload, b"payload bytes".to_vec());
    assert_eq!(m.onward_route.addresses, vec![worker_address("there")]);
    assert_eq!(m.return_route.addresses, vec![worker_address("back")]);
}

#[test]
fn test_message_builder_defaults() {
    let m = MessageBuilder::message().build();
    assert_eq!(m.message_type, MessageType::Payload);
    assert_eq!(m.payload.len(), 0);
    let e = MessageBuilder::message().empty().build();
    assert_eq!(e.payload.len(), 0);
    assert!(MAX_MESSAGE_SIZE >= 1024);
}

#[test]
fn test_route_step() {
    let mut route = Route::empty();
    route.append(worker_address("one"));
    route.append(worker_address("two"));
    assert_eq!(route.len(), 2);
    assert_eq!(route.step(), Some(worker_address("one")));
    assert_eq!(route.step(), Some(worker_address("two")));
    assert_eq!(route.step(), None);
}

#[test]
fn test_address_equality_and_type() {
    assert_eq!(worker_address("same"), worker_address("same"));
    assert_ne!(worker_address("same"), worker_address("other"));
    let endpoint = SocketEndpoint { ip0: 10, ip1: 0, ip2: 0, ip3: 7, port: 4000 };
    let tcp = Address::TcpAddress(endpoint);
    assert_eq!(tcp.address_type(), AddressType::Tcp);
    assert_eq!(worker_address("w").address_type(), AddressType::Worker);
    assert_ne!(tcp, Address::UdpAddress(endpoint));
    // Transport addresses dispatch to the class's zero endpoint; worker
    // addresses stand for themselves.
    assert_eq!(tcp.dispatch_address(), Address::TcpAddress(SocketEndpoint::zero()));
    assert_eq!(worker_address("w").dispatch_address(), worker_address("w"));
    assert_eq!(worker_address("w").as_u8(), b"w".to_vec());
}

#[test]
fn test_error_names() {
    assert_eq!(Error::NoRouteSupplied.as_str(), "no route supplied");
    assert_eq!(Error::NoHandlerForAddress.as_str(), "no handler for address");
    assert_eq!(Error::TransportBindFailure.as_str(), "transport bind failure");
    assert_eq!(Error::TransportConnectFailure.as_str(), "transport connect failure");
    assert_eq!(Error::ProtocolStateError.as_str(), "protocol state error");
    assert_eq!(Error::KeyExchangeFailure.as_str(), "key exchange failure");
    assert_eq!(Error::WorkerRuntime.as_str(), "worker runtime failure");
}
