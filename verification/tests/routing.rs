use ockam::address::{Address, AddressType, SocketEndpoint};
use ockam::message::{Message, MessageType};
use ockam::node::Node;
use ockam::route::Route;
use ockam::router::MessageRouter;
use ockam::worker::{Handler, MailboxWorker, WorkerRegistration};
use ockam::Error;

fn worker_address(name: &str) -> Address {
    Address::WorkerAddress(name.as_bytes().to_vec())
}

fn payload_to(name: &str, body: &[u8]) -> Message {
    Message {
        message_type: MessageType::Payload,
        onward_route: Route::single(worker_address(name)),
        return_route: Route::empty(),
        payload: body.to_vec(),
    }
}

fn received_of<'a>(router: &'a MessageRouter, address: &Address) -> &'a Vec<Message> {
    match router.handler_at(address) {
        Some(Handler::Mailbox(w)) => w.received(),
        _ => panic!("no mailbox worker at that address"),
    }
}

#[test]
fn test_dispatch_by_front_address_in_order() {
    let mut router = MessageRouter::new();
    router
        .register_message_handler(worker_address("A"), Handler::Mailbox(MailboxWorker::new(None)))
        .unwrap();
    router
        .register_message_handler(worker_address("B"), Handler::Mailbox(MailboxWorker::new(None)))
        .unwrap();
    let batch = vec![
        payload_to("A", b"first"),
        payload_to("B", b"second"),
        payload_to("A", b"third"),
    ];
    router.enqueue_messages(batch).unwrap();
    let (keep_going, messages, registrations) = router.poll().unwrap();
    assert!(keep_going);
    assert!(messages.is_empty());
    assert!(registrations.is_empty());
    let at_a = received_of(&router, &worker_address("A"));
    assert_eq!(at_a.len(), 2);
    assert_eq!(at_a[0].payload, b"first".to_vec());
    assert_eq!(at_a[1].payload, b"third".to_vec());
    // The front address was stripped before delivery.
    assert_eq!(at_a[0].onward_route.addresses.len(), 0);
    let at_b = received_of(&router, &worker_address("B"));
    assert_eq!(at_b.len(), 1);
    assert_eq!(at_b[0].payload, b"second".to_vec());
}

#[test]
fn test_reregistration_redirects_traffic() {
    let mut router = MessageRouter::new();
    router
        .register_message_handler(worker_address("A"), Handler::Mailbox(MailboxWorker::new(None)))
        .unwrap();
    router.enqueue_messages(vec![payload_to("A", b"old")]).unwrap();
    router.poll().unwrap();
    // Re-register the same address with a fresh handler.
    router
        .register_message_handler(worker_address("A"), Handler::Mailbox(MailboxWorker::new(None)))
        .unwrap();
    router.enqueue_messages(vec![payload_to("A", b"new")]).unwrap();
    router.poll().unwrap();
    let at_a = received_of(&router, &worker_address("A"));
    assert_eq!(at_a.len(), 1);
    assert_eq!(at_a[0].payload, b"new".to_vec());
}

#[test]
fn test_empty_onward_route_is_fatal() {
    let mut router = MessageRouter::new();
    router
        .register_message_handler(worker_address("A"), Handler::Mailbox(MailboxWorker::new(None)))
        .unwrap();
    let no_route = Message {
        message_type: MessageType::Payload,
        onward_route: Route::empty(),
        return_route: Route::empty(),
        payload: b"lost".to_vec(),
    };
    router.enqueue_messages(vec![no_route]).unwrap();
    assert!(matches!(router.poll(), Err(Error::NoRouteSupplied)));
    let at_a = received_of(&router, &worker_address("A"));
    assert_eq!(at_a.len(), 0);
}

#[test]
fn test_unregistered_address_is_fatal() {
    let mut router = MessageRouter::new();
    router.enqueue_messages(vec![payload_to("nobody", b"x")]).unwrap();
    assert!(matches!(router.poll(), Err(Error::NoHandlerForAddress)));
}

#[test]
fn test_transport_address_dispatches_to_well_known_slot() {
    let mut router = MessageRouter::new();
    let transport_router_address = Address::TcpAddress(SocketEndpoint::zero());
    router
        .register_message_handler(
            transport_router_address.clone(),
            Handler::Mailbox(MailboxWorker::new(None)),
        )
        .unwrap();
    // A message to any concrete TCP endpoint goes to the single
    // well-known transport router address.
    let endpoint = Address::TcpAddress(SocketEndpoint { ip0: 127, ip1: 0, ip2: 0, ip3: 1, port: 4052 });
    assert_eq!(endpoint.address_type(), AddressType::Tcp);
    let m = Message {
        message_type: MessageType::Payload,
        onward_route: Route::single(endpoint),
        return_route: Route::empty(),
        payload: b"over tcp".to_vec(),
    };
    router.enqueue_messages(vec![m]).unwrap();
    let (keep_going, _, _) = router.poll().unwrap();
    assert!(keep_going);
    let at_transport = received_of(&router, &transport_router_address);
    assert_eq!(at_transport.len(), 1);
    assert_eq!(at_transport[0].payload, b"over tcp".to_vec());
}

#[test]
fn test_stop_leaves_rest_of_queue() {
    let mut router = MessageRouter::new();
    router
        .register_message_handler(
            worker_address("A"),
            Handler::Mailbox(MailboxWorker::new(Some(2))),
        )
        .unwrap();
    let batch = vec![
        payload_to("A", b"one"),
        payload_to("A", b"two"),
        payload_to("A", b"three"),
    ];
    router.enqueue_messages(batch).unwrap();
    let (keep_going, _, _) = router.poll().unwrap();
    // The handler asked to stop on its second delivery: the drain stops at
    // once and the third message stays queued.
    assert!(!keep_going);
    assert_eq!(router.pending_messages(), 1);
    let at_a = received_of(&router, &worker_address("A"));
    assert_eq!(at_a.len(), 2);
}

#[test]
fn test_registration_visible_next_cycle() {
    let mut node = Node::new("test");
    let mut announcer = MailboxWorker::new(None);
    announcer.announce(WorkerRegistration::Mailbox {
        address: worker_address("C"),
        limit: None,
        poll: false,
    });
    announcer.push_outbox(payload_to("C", b"for c"));
    node.register_worker(worker_address("A"), Handler::Mailbox(announcer), false)
        .unwrap();
    node.enqueue_messages(vec![payload_to("A", b"trigger")]).unwrap();
    // Cycle one: the trigger reaches A; its registration of C and its
    // message for C are collected and applied at the cycle boundary.
    assert_eq!(node.run_cycle(), Ok(true));
    assert_eq!(node.message_router.pending_messages(), 1);
    // Cycle two: the message for C is dispatched to the now-live C.
    assert_eq!(node.run_cycle(), Ok(true));
    let at_c = received_of(&node.message_router, &worker_address("C"));
    assert_eq!(at_c.len(), 1);
    assert_eq!(at_c[0].payload, b"for c".to_vec());
}

#[test]
fn test_registration_not_visible_same_cycle() {
    let mut node = Node::new("test");
    let mut announcer = MailboxWorker::new(None);
    announcer.announce(WorkerRegistration::Mailbox {
        address: worker_address("C"),
        limit: None,
        poll: false,
    });
    node.register_worker(worker_address("A"), Handler::Mailbox(announcer), false)
        .unwrap();
    // Both messages are queued in the same cycle: A's handler produces the
    // registration for C, but dispatch still uses the table as it stood
    // when the cycle began, so the message for C is fatal.
    node.enqueue_messages(vec![payload_to("A", b"trigger"), payload_to("C", b"early")])
        .unwrap();
    assert_eq!(node.run_cycle(), Err(Error::NoHandlerForAddress));
}

#[test]
fn test_polled_worker_output_is_delivered_next_cycle() {
    let mut node = Node::new("test");
    node.register_worker(worker_address("B"), Handler::Mailbox(MailboxWorker::new(None)), false)
        .unwrap();
    let mut ticker = MailboxWorker::new(None);
    ticker.push_outbox(payload_to("B", b"from the tick"));
    node.register_worker(worker_address("A"), Handler::Mailbox(ticker), true)
        .unwrap();
    // Cycle one: A's scheduler tick hands out its prepared message; it is
    // enqueued at the cycle boundary.
    assert_eq!(node.run_cycle(), Ok(true));
    assert_eq!(node.message_router.pending_messages(), 1);
    // Cycle two: the message reaches B.
    assert_eq!(node.run_cycle(), Ok(true));
    let at_b = received_of(&node.message_router, &worker_address("B"));
    assert_eq!(at_b.len(), 1);
    assert_eq!(at_b[0].payload, b"from the tick".to_vec());
}

#[test]
fn test_node() {
    let mut node = Node::new("");
    let worker = MailboxWorker::new(Some(1));
    node.register_worker(
        Address::WorkerAddress("aabbccdd".as_bytes().to_vec()),
        Handler::Mailbox(worker),
        true,
    )
    .expect("failed to register worker");
    node.enqueue_messages(vec![payload_to("aabbccdd", b"stop soon")]).unwrap();
    if let Err(_s) = node.run(100) {
        assert!(false);
    } else {
        assert!(true);
    }
}
