use ockam::address::Address;
use ockam::channel::{channel_zero_address, ChannelState, SecureChannel, CHANNEL_ZERO};
use ockam::kex::{cipher, kex_public, kex_shared, KEY_LENGTH};
use ockam::message::{Message, MessageType};
use ockam::node::Node;
use ockam::route::Route;
use ockam::worker::{Handler, MailboxWorker};
use ockam::Error;

fn worker_address(name: &str) -> Address {
    Address::WorkerAddress(name.as_bytes().to_vec())
}

fn channel_state_at(node: &Node, address: &Address) -> ChannelState {
    match node.message_router.handler_at(address) {
        Some(Handler::Channel(c)) => c.state(),
        _ => panic!("no channel at that address"),
    }
}

/// One node hosting both ends of a secure channel over an in-memory
/// route: after M1, M2 and M3 both sessions are established, and a
/// payload sent by the initiator arrives byte-identical at the
/// responder's wrapped inner worker.
#[test]
fn test_secure_channel_round_trip() {
    let mut node = Node::new("test");
    let inner = worker_address("inner");
    node.register_worker(inner.clone(), Handler::Mailbox(MailboxWorker::new(None)), false)
        .unwrap();
    let listener = SecureChannel::listen(inner.clone());
    node.register_worker(channel_zero_address(), Handler::Channel(listener), false)
        .unwrap();
    let initiator_inner = worker_address("app");
    node.register_worker(
        initiator_inner.clone(),
        Handler::Mailbox(MailboxWorker::new(None)),
        false,
    )
    .unwrap();

    let channel_address =
        node.create_secure_channel(Route::single(channel_zero_address()), initiator_inner);

    // Three cycles carry M1, M2 and M3.
    assert_eq!(node.run(5), Ok(true));
    assert_eq!(channel_state_at(&node, &channel_address), ChannelState::Established);
    assert_eq!(channel_state_at(&node, &channel_zero_address()), ChannelState::Established);

    // A locally handed-in payload is protected, relayed, deciphered and
    // forwarded to the responder's inner worker, byte-identical.
    let control = Message {
        message_type: MessageType::Control,
        onward_route: Route::single(channel_address.clone()),
        return_route: Route::empty(),
        payload: b"attack at dawn".to_vec(),
    };
    node.enqueue_messages(vec![control]).unwrap();
    assert_eq!(node.run(3), Ok(true));
    match node.message_router.handler_at(&inner) {
        Some(Handler::Mailbox(w)) => {
            assert_eq!(w.received().len(), 1);
            assert_eq!(w.received()[0].payload, b"attack at dawn".to_vec());
            assert_eq!(w.received()[0].message_type, MessageType::Payload);
        }
        _ => panic!("inner worker missing"),
    }
}

/// A message type that does not fit the session's state is a protocol
/// error and leaves the session untouched.
#[test]
fn test_mismatched_message_type_is_protocol_error() {
    let mut node = Node::new("test");
    let listener = SecureChannel::listen(worker_address("inner"));
    node.register_worker(channel_zero_address(), Handler::Channel(listener), false)
        .unwrap();
    let m3 = Message {
        message_type: MessageType::KeyAgreementM3,
        onward_route: Route::single(channel_zero_address()),
        return_route: Route::empty(),
        payload: vec![0u8; KEY_LENGTH],
    };
    node.enqueue_messages(vec![m3]).unwrap();
    assert_eq!(node.run_cycle(), Err(Error::ProtocolStateError));
    assert_eq!(channel_state_at(&node, &channel_zero_address()), ChannelState::AwaitingM1);
}

/// A handshake answer whose key material has the wrong length fails the
/// key exchange.
#[test]
fn test_short_key_material_fails_key_exchange() {
    let mut node = Node::new("test");
    let channel_address = node.create_secure_channel(
        Route::single(worker_address("far end")),
        worker_address("inner"),
    );
    // Drop the queued M1; this test drives the initiator directly.
    let bad_m2 = Message {
        message_type: MessageType::KeyAgreementM2,
        onward_route: Route::single(channel_address.clone()),
        return_route: Route::single(worker_address("far end")),
        payload: vec![1, 2, 3],
    };
    node.message_router.message_queue.clear();
    node.enqueue_messages(vec![bad_m2]).unwrap();
    assert_eq!(node.run_cycle(), Err(Error::KeyExchangeFailure));
}

#[test]
fn test_channel_zero_address_shape() {
    assert_eq!(CHANNEL_ZERO, "00000000");
    assert_eq!(
        channel_zero_address(),
        Address::WorkerAddress(vec![0u8, 0u8, 0u8, 0u8])
    );
    let listener = SecureChannel::listen(worker_address("inner"));
    assert_eq!(listener.address_as_u8(), vec![0u8, 0u8, 0u8, 0u8]);
    assert_eq!(listener.state(), ChannelState::AwaitingM1);
}

#[test]
fn test_create_mints_fresh_address_and_sends_m1() {
    let (session, m1) = SecureChannel::create(
        Route::single(channel_zero_address()),
        worker_address("inner"),
    );
    assert_eq!(session.state(), ChannelState::AwaitingM2);
    assert_eq!(session.address_as_u8().len(), 4);
    assert_eq!(m1.message_type, MessageType::KeyAgreementM1);
    assert_eq!(m1.payload.len(), KEY_LENGTH);
    assert_eq!(
        m1.onward_route.addresses[0],
        channel_zero_address()
    );
    assert_eq!(m1.return_route.addresses[0], session.session_address());
}

/// The key schedule: both sides derive the same transport key, and the
/// keystream transform is its own inverse.
#[test]
fn test_key_schedule_round_trip() {
    let a = vec![7u8; KEY_LENGTH];
    let b = vec![42u8; KEY_LENGTH];
    let shared_ab = kex_shared(&a, &kex_public(&b));
    let shared_ba = kex_shared(&b, &kex_public(&a));
    assert_eq!(shared_ab, shared_ba);
    let data = b"round and round".to_vec();
    let protected = cipher(&shared_ab, &data);
    assert_eq!(cipher(&shared_ba, &protected), data);
}

/// Exact values of the key schedule on small inputs: the public value is
/// the bytewise complement, the shared key and keystream the bytewise
/// exclusive-or.
#[test]
fn test_key_schedule_exact_values() {
    let secret = vec![0x0Fu8, 0xF0u8];
    assert_eq!(kex_public(&secret), vec![0xF0u8, 0x0Fu8]);
    let peer_public = vec![0x01u8, 0x02u8];
    assert_eq!(kex_shared(&secret, &peer_public), vec![0x0Eu8, 0xF2u8]);
    let key = vec![0xAAu8];
    let data = vec![0x00u8, 0xFFu8, 0xAAu8];
    assert_eq!(cipher(&key, &data), vec![0xAAu8, 0x55u8, 0x00u8]);
}
