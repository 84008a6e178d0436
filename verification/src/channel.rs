//! The secure channel: a per-session state machine executing a three-message
//! key-exchange handshake and then relaying protected payload traffic.
//!
//! An initiator calls [`SecureChannel::create`]: it mints a session-local
//! address, produces the first handshake message (M1) for the responder's
//! well-known channel-zero address, and waits in `AwaitingM2`. A responder
//! calls [`SecureChannel::listen`]: it binds channel zero and waits in
//! `AwaitingM1`. On M1 the responder captures the initiator's return route
//! as the session peer, answers with M2 from a freshly minted per-session
//! address (announced as an alias so later messages do not collide with a
//! different initiator's handshake at channel zero), and waits in
//! `AwaitingM3`. On M2 the initiator derives the shared transport key,
//! answers with M3 and is `Established`; on M3 the responder verifies the
//! initiator's public value and derives the same key.
//!
//! Once `Established`, a `Payload` message from the peer is deciphered and
//! forwarded to the wrapped inner worker, and a `Control` message handed in
//! locally is protected and sent along the session route. A message type
//! that does not fit the current state is a protocol error and leaves the
//! session untouched.

use crate::address::{bytes_eq, Address, AddressView};
use crate::error::Error;
use crate::kex::{cipher, cipher_spec, kex_public, kex_public_spec, kex_shared, kex_shared_spec, KEY_LENGTH};
use crate::message::{Message, MessageType, MessageView};
use crate::rng::fresh_bytes;
use crate::route::Route;
use crate::worker::{RegistrationView, WorkerRegistration};
use vstd::prelude::*;

verus! {

/// The channel address, as text, that a responder listens on before a
/// session-specific address exists.
pub const CHANNEL_ZERO: &'static str = "00000000";

/// The well-known channel-zero address: four zero bytes.
pub fn channel_zero_address() -> (r: Address)
    ensures
        r@ == channel_zero_spec(),
{
    let mut bytes: Vec<u8> = Vec::new();
    bytes.push(0);
    bytes.push(0);
    bytes.push(0);
    bytes.push(0);
    assert(bytes@ =~= seq![0u8, 0u8, 0u8, 0u8]);
    Address::WorkerAddress(bytes)
}

/// The abstract value of the channel-zero address.
pub open spec fn channel_zero_spec() -> AddressView {
    AddressView::WorkerAddress(seq![0u8, 0u8, 0u8, 0u8])
}

/// The handshake position of a session.
#[derive(Clone, Copy, Debug, PartialEq, Eq, Structural)]
pub enum ChannelState {
    /// Responder, waiting for an initiator's first message.
    AwaitingM1,
    /// Initiator, M1 sent, waiting for the responder's answer.
    AwaitingM2,
    /// Responder, M2 sent, waiting for the initiator's confirmation.
    AwaitingM3,
    /// Handshake complete; only payload traffic is accepted.
    Established,
}

/// A per-session secure channel.
#[derive(Debug)]
pub struct SecureChannel {
    /// The address this session is reachable at.
    pub address: Address,
    /// The per-session address a responder mints for the one-on-one
    /// session; equal to `address` for an initiator.
    pub session_address: Address,
    /// The route to the session peer.
    pub route: Route,
    /// The handshake position.
    pub state: ChannelState,
    /// This side's key-exchange secret.
    pub secret: Vec<u8>,
    /// The peer's public value, captured by a responder at M1.
    pub peer_public: Vec<u8>,
    /// The derived transport key; present exactly in `Established`.
    pub transport_key: Option<Vec<u8>>,
    /// Where deciphered payloads are forwarded: the wrapped inner worker.
    pub inner_address: Address,
}

/// The mathematical value of a [`SecureChannel`].
pub struct SecureChannelView {
    pub address: AddressView,
    pub session_address: AddressView,
    pub route: Seq<AddressView>,
    pub state: ChannelState,
    pub secret: Seq<u8>,
    pub peer_public: Seq<u8>,
    pub transport_key: Option<Seq<u8>>,
    pub inner_address: AddressView,
}

impl View for SecureChannel {
    type V = SecureChannelView;

    open spec fn view(&self) -> SecureChannelView {
        SecureChannelView {
            address: self.address@,
            session_address: self.session_address@,
            route: self.route@,
            state: self.state,
            secret: self.secret@,
            peer_public: self.peer_public@,
            transport_key: match self.transport_key {
                Some(k) => Some(k@),
                None => None,
            },
            inner_address: self.inner_address@,
        }
    }
}

impl DeepView for SecureChannel {
    type V = SecureChannelView;

    open spec fn deep_view(&self) -> SecureChannelView {
        self@
    }
}

impl SecureChannelView {
    /// Internal consistency: a full-length secret, and a full-length
    /// transport key exactly once the session is established.
    pub open spec fn wf(self) -> bool {
        &&& self.secret.len() == KEY_LENGTH
        &&& (self.state == ChannelState::Established <==> self.transport_key is Some)
        &&& (self.transport_key is Some ==> self.transport_key->Some_0.len() == KEY_LENGTH)
        &&& (self.state == ChannelState::AwaitingM3 ==> self.peer_public.len() == KEY_LENGTH)
    }
}

/// What one message does to a session: the session afterwards, and either
/// the messages and registrations it produces or the error it reports.
pub struct ChannelStep {
    pub channel: SecureChannelView,
    pub result: Result<ChannelOutput, Error>,
}

/// The output of a successful session step.
pub struct ChannelOutput {
    pub messages: Seq<MessageView>,
    pub registrations: Seq<RegistrationView>,
}

/// The first handshake message a session built on `route` sends.
pub open spec fn m1_message(c: SecureChannelView, route: Seq<AddressView>) -> MessageView {
    MessageView {
        message_type: MessageType::KeyAgreementM1,
        onward_route: route,
        return_route: seq![c.address],
        payload: kex_public_spec(c.secret),
    }
}

/// The session step function: how a session in state `c` reacts to the
/// message `m`.
pub open spec fn channel_step_spec(c: SecureChannelView, m: MessageView) -> ChannelStep {
    match (c.state, m.message_type) {
        (ChannelState::AwaitingM1, MessageType::KeyAgreementM1) => {
            if m.payload.len() != KEY_LENGTH {
                ChannelStep { channel: c, result: Err(Error::KeyExchangeFailure) }
            } else {
                let c2 = SecureChannelView {
                    route: m.return_route,
                    peer_public: m.payload,
                    state: ChannelState::AwaitingM3,
                    ..c
                };
                let m2 = MessageView {
                    message_type: MessageType::KeyAgreementM2,
                    onward_route: m.return_route,
                    return_route: seq![c.session_address],
                    payload: kex_public_spec(c.secret),
                };
                let alias = RegistrationView::Alias { address: c.session_address, of: c.address };
                ChannelStep {
                    channel: c2,
                    result: Ok(ChannelOutput { messages: seq![m2], registrations: seq![alias] }),
                }
            }
        },
        (ChannelState::AwaitingM2, MessageType::KeyAgreementM2) => {
            if m.payload.len() != KEY_LENGTH {
                ChannelStep { channel: c, result: Err(Error::KeyExchangeFailure) }
            } else {
                let c2 = SecureChannelView {
                    route: m.return_route,
                    state: ChannelState::Established,
                    transport_key: Some(kex_shared_spec(c.secret, m.payload)),
                    ..c
                };
                let m3 = MessageView {
                    message_type: MessageType::KeyAgreementM3,
                    onward_route: m.return_route,
                    return_route: seq![c.address],
                    payload: kex_public_spec(c.secret),
                };
                ChannelStep {
                    channel: c2,
                    result: Ok(ChannelOutput { messages: seq![m3], registrations: seq![] }),
                }
            }
        },
        (ChannelState::AwaitingM3, MessageType::KeyAgreementM3) => {
            if m.payload != c.peer_public {
                ChannelStep { channel: c, result: Err(Error::KeyExchangeFailure) }
            } else {
                let c2 = SecureChannelView {
                    state: ChannelState::Established,
                    transport_key: Some(kex_shared_spec(c.secret, c.peer_public)),
                    ..c
                };
                ChannelStep {
                    channel: c2,
                    result: Ok(ChannelOutput { messages: seq![], registrations: seq![] }),
                }
            }
        },
        (ChannelState::Established, MessageType::Payload) => {
            let plain = MessageView {
                message_type: MessageType::Payload,
                onward_route: seq![c.inner_address],
                return_route: seq![c.session_address],
                payload: cipher_spec(c.transport_key->Some_0, m.payload),
            };
            ChannelStep {
                channel: c,
                result: Ok(ChannelOutput { messages: seq![plain], registrations: seq![] }),
            }
        },
        (ChannelState::Established, MessageType::Control) => {
            let wire = MessageView {
                message_type: MessageType::Payload,
                onward_route: c.route,
                return_route: seq![c.session_address],
                payload: cipher_spec(c.transport_key->Some_0, m.payload),
            };
            ChannelStep {
                channel: c,
                result: Ok(ChannelOutput { messages: seq![wire], registrations: seq![] }),
            }
        },
        _ => ChannelStep { channel: c, result: Err(Error::ProtocolStateError) },
    }
}

/// Whether an executable step outcome matches the step function.
pub open spec fn channel_step_matches(
    c: SecureChannelView,
    m: MessageView,
    c2: SecureChannelView,
    r: Result<(Vec<Message>, Vec<WorkerRegistration>), Error>,
) -> bool {
    let step = channel_step_spec(c, m);
    &&& c2 == step.channel
    &&& match step.result {
        Ok(out) => r matches Ok(t) && t.0.deep_view() == out.messages && t.1.deep_view()
            == out.registrations,
        Err(e) => r matches Err(e2) && e2 == e,
    }
}

/// A message type that does not fit the session's current state reports a
/// protocol error and leaves the session untouched.
pub proof fn lemma_mismatch_preserves_state(c: SecureChannelView, m: MessageView)
    requires
        !channel_accepts(c.state, m.message_type),
    ensures
        channel_step_spec(c, m).channel == c,
        channel_step_spec(c, m).result == Err::<ChannelOutput, Error>(Error::ProtocolStateError),
{
}

/// Which message types fit which states.
pub open spec fn channel_accepts(state: ChannelState, t: MessageType) -> bool {
    match (state, t) {
        (ChannelState::AwaitingM1, MessageType::KeyAgreementM1) => true,
        (ChannelState::AwaitingM2, MessageType::KeyAgreementM2) => true,
        (ChannelState::AwaitingM3, MessageType::KeyAgreementM3) => true,
        (ChannelState::Established, MessageType::Payload) => true,
        (ChannelState::Established, MessageType::Control) => true,
        _ => false,
    }
}

/// A step never changes the session's addresses, secret or inner worker,
/// and keeps the session well formed.
pub proof fn lemma_channel_step_wf(c: SecureChannelView, m: MessageView)
    requires
        c.wf(),
    ensures
        channel_step_spec(c, m).channel.wf(),
        channel_step_spec(c, m).channel.address == c.address,
        channel_step_spec(c, m).channel.session_address == c.session_address,
        channel_step_spec(c, m).channel.secret == c.secret,
        channel_step_spec(c, m).channel.inner_address == c.inner_address,
        channel_step_spec(c, m).result is Err ==> channel_step_spec(c, m).channel == c,
{
}

/// A step's outgoing messages fit in a transport frame whenever the
/// incoming one does.
pub proof fn lemma_channel_step_outputs_wf(c: SecureChannelView, m: MessageView)
    requires
        c.wf(),
        m.wf(),
        channel_step_spec(c, m).result is Ok,
    ensures
        forall|i: int|
            0 <= i < channel_step_spec(c, m).result->Ok_0.messages.len()
                ==> #[trigger] channel_step_spec(c, m).result->Ok_0.messages[i].wf(),
{
    assert(KEY_LENGTH <= crate::message::MAX_MESSAGE_SIZE);
}

impl SecureChannel {
    /// Starts an initiator session: mints a session-local address and a
    /// fresh secret, and returns the session in `AwaitingM2` together with
    /// the first handshake message, addressed along `route`.
    ///
    /// Deciphered payloads arriving after establishment are forwarded to
    /// `inner_address`.
    pub fn create(route: Route, inner_address: Address) -> (r: (SecureChannel, Message))
        ensures
            r.0@.wf(),
            r.0@.state == ChannelState::AwaitingM2,
            r.0@.route == route@,
            r.0@.inner_address == inner_address@,
            r.0@.session_address == r.0@.address,
            r.0@.address matches AddressView::WorkerAddress(bytes) && bytes.len() == 4,
            r.0@.peer_public == Seq::<u8>::empty(),
            r.0@.transport_key is None,
            r.1@ == m1_message(r.0@, route@),
    {
        let address = Address::WorkerAddress(fresh_bytes(4));
        let secret = fresh_bytes(KEY_LENGTH);
        let m1 = Message {
            message_type: MessageType::KeyAgreementM1,
            onward_route: route.clone(),
            return_route: Route::single(address.clone()),
            payload: kex_public(&secret),
        };
        let session = SecureChannel {
            session_address: address.clone(),
            address,
            route,
            state: ChannelState::AwaitingM2,
            secret,
            peer_public: Vec::new(),
            transport_key: None,
            inner_address,
        };
        (session, m1)
    }

    /// Starts a responder session bound to the well-known channel-zero
    /// address, waiting in `AwaitingM1`, with a freshly minted per-session
    /// address held ready for the first initiator.
    pub fn listen(inner_address: Address) -> (r: SecureChannel)
        ensures
            r@.wf(),
            r@.state == ChannelState::AwaitingM1,
            r@.address == channel_zero_spec(),
            r@.session_address matches AddressView::WorkerAddress(bytes) && bytes.len() == 4,
            r@.route == Seq::<AddressView>::empty(),
            r@.inner_address == inner_address@,
            r@.peer_public == Seq::<u8>::empty(),
            r@.transport_key is None,
    {
        SecureChannel {
            address: channel_zero_address(),
            session_address: Address::WorkerAddress(fresh_bytes(4)),
            route: Route::empty(),
            state: ChannelState::AwaitingM1,
            secret: fresh_bytes(KEY_LENGTH),
            peer_public: Vec::new(),
            transport_key: None,
            inner_address,
        }
    }

    /// The handshake position of this session.
    pub fn state(&self) -> (r: ChannelState)
        ensures
            r == self@.state,
    {
        self.state
    }

    /// The bytes of the session's reachable address; empty if it is a
    /// transport address.
    pub fn address_as_u8(&self) -> (r: Vec<u8>)
        ensures
            r@ == self@.address.worker_bytes(),
    {
        self.address.as_u8()
    }

    /// The per-session address a responder answers from.
    pub fn session_address(&self) -> (r: Address)
        ensures
            r@ == self@.session_address,
    {
        self.session_address.clone()
    }

    /// Responder: accept M1, capture the peer, answer with M2 and announce
    /// the per-session alias.
    fn receive_m1(&mut self, m1: Message) -> (r: Result<(Vec<Message>, Vec<WorkerRegistration>), Error>)
        requires
            old(self)@.wf(),
            old(self)@.state == ChannelState::AwaitingM1,
            m1@.message_type == MessageType::KeyAgreementM1,
        ensures
            channel_step_matches(old(self)@, m1@, final(self)@, r),
    {
        if m1.payload.len() != KEY_LENGTH {
            return Err(Error::KeyExchangeFailure);
        }
        let m2 = Message {
            message_type: MessageType::KeyAgreementM2,
            onward_route: m1.return_route.clone(),
            return_route: Route::single(self.session_address.clone()),
            payload: kex_public(&self.secret),
        };
        let alias = WorkerRegistration::Alias {
            address: self.session_address.clone(),
            of: self.address.clone(),
        };
        self.route = m1.return_route;
        self.peer_public = m1.payload;
        self.state = ChannelState::AwaitingM3;
        let mut messages: Vec<Message> = Vec::new();
        messages.push(m2);
        let mut registrations: Vec<WorkerRegistration> = Vec::new();
        registrations.push(alias);
        proof {
            let step = channel_step_spec(old(self)@, m1@);
            assert(messages.deep_view() =~= step.result->Ok_0.messages);
            assert(registrations.deep_view() =~= step.result->Ok_0.registrations);
        }
        Ok((messages, registrations))
    }

    /// Initiator: accept M2, derive the transport key, answer with M3.
    fn receive_m2(&mut self, m2: Message) -> (r: Result<(Vec<Message>, Vec<WorkerRegistration>), Error>)
        requires
            old(self)@.wf(),
            old(self)@.state == ChannelState::AwaitingM2,
            m2@.message_type == MessageType::KeyAgreementM2,
        ensures
            channel_step_matches(old(self)@, m2@, final(self)@, r),
    {
        if m2.payload.len() != KEY_LENGTH {
            return Err(Error::KeyExchangeFailure);
        }
        let m3 = Message {
            message_type: MessageType::KeyAgreementM3,
            onward_route: m2.return_route.clone(),
            return_route: Route::single(self.address.clone()),
            payload: kex_public(&self.secret),
        };
        self.transport_key = Some(kex_shared(&self.secret, &m2.payload));
        self.route = m2.return_route;
        self.state = ChannelState::Established;
        let mut messages: Vec<Message> = Vec::new();
        messages.push(m3);
        let registrations: Vec<WorkerRegistration> = Vec::new();
        proof {
            let step = channel_step_spec(old(self)@, m2@);
            assert(messages.deep_view() =~= step.result->Ok_0.messages);
            assert(registrations.deep_view() =~= step.result->Ok_0.registrations);
        }
        Ok((messages, registrations))
    }

    /// Responder: accept M3, verify the peer's public value, derive the
    /// transport key.
    fn receive_m3(&mut self, m3: Message) -> (r: Result<(Vec<Message>, Vec<WorkerRegistration>), Error>)
        requires
            old(self)@.wf(),
            old(self)@.state == ChannelState::AwaitingM3,
            m3@.message_type == MessageType::KeyAgreementM3,
        ensures
            channel_step_matches(old(self)@, m3@, final(self)@, r),
    {
        if !bytes_eq(&m3.payload, &self.peer_public) {
            return Err(Error::KeyExchangeFailure);
        }
        self.transport_key = Some(kex_shared(&self.secret, &self.peer_public));
        self.state = ChannelState::Established;
        let messages: Vec<Message> = Vec::new();
        let registrations: Vec<WorkerRegistration> = Vec::new();
        proof {
            let step = channel_step_spec(old(self)@, m3@);
            assert(messages.deep_view() =~= step.result->Ok_0.messages);
            assert(registrations.deep_view() =~= step.result->Ok_0.registrations);
        }
        Ok((messages, registrations))
    }

    /// Established: decipher a payload message from the peer and forward it
    /// to the inner worker, or protect a locally handed-in control message
    /// and send it along the session route.
    fn relay(&mut self, message: Message) -> (r: Result<(Vec<Message>, Vec<WorkerRegistration>), Error>)
        requires
            old(self)@.wf(),
            old(self)@.state == ChannelState::Established,
            m_is_relay(message@.message_type),
        ensures
            channel_step_matches(old(self)@, message@, final(self)@, r),
    {
        let key = match &self.transport_key {
            Some(k) => k,
            None => {
                proof {
                    assert(false);
                }
                return Err(Error::KeyExchangeFailure);
            },
        };
        let body = cipher(key, &message.payload);
        let out = if matches!(message.message_type, MessageType::Payload) {
            Message {
                message_type: MessageType::Payload,
                onward_route: Route::single(self.inner_address.clone()),
                return_route: Route::single(self.session_address.clone()),
                payload: body,
            }
        } else {
            Message {
                message_type: MessageType::Payload,
                onward_route: self.route.clone(),
                return_route: Route::single(self.session_address.clone()),
                payload: body,
            }
        };
        let mut messages: Vec<Message> = Vec::new();
        messages.push(out);
        let registrations: Vec<WorkerRegistration> = Vec::new();
        proof {
            let step = channel_step_spec(old(self)@, message@);
            assert(messages.deep_view() =~= step.result->Ok_0.messages);
            assert(registrations.deep_view() =~= step.result->Ok_0.registrations);
        }
        Ok((messages, registrations))
    }

    /// Feeds one message to the session's step function.
    pub fn process_message(&mut self, message: Message) -> (r: Result<
        (Vec<Message>, Vec<WorkerRegistration>),
        Error,
    >)
        requires
            old(self)@.wf(),
        ensures
            channel_step_matches(old(self)@, message@, final(self)@, r),
            final(self)@.wf(),
    {
        proof {
            lemma_channel_step_wf(old(self)@, message@);
        }
        match (self.state, message.message_type) {
            (ChannelState::AwaitingM1, MessageType::KeyAgreementM1) => self.receive_m1(message),
            (ChannelState::AwaitingM2, MessageType::KeyAgreementM2) => self.receive_m2(message),
            (ChannelState::AwaitingM3, MessageType::KeyAgreementM3) => self.receive_m3(message),
            (ChannelState::Established, MessageType::Payload) => self.relay(message),
            (ChannelState::Established, MessageType::Control) => self.relay(message),
            _ => Err(Error::ProtocolStateError),
        }
    }

    /// A session does nothing on a scheduler tick; the handshake is driven
    /// entirely by messages.
    pub fn poll(&self) -> (r: (bool, Vec<Message>, Vec<WorkerRegistration>))
        ensures
            r.0 == true,
            r.1.deep_view() == Seq::<MessageView>::empty(),
            r.2.deep_view() == Seq::<RegistrationView>::empty(),
    {
        let messages: Vec<Message> = Vec::new();
        let registrations: Vec<WorkerRegistration> = Vec::new();
        proof {
            assert(messages.deep_view() =~= Seq::<MessageView>::empty());
            assert(registrations.deep_view() =~= Seq::<RegistrationView>::empty());
        }
        (true, messages, registrations)
    }
}

/// Whether a message type is relayed in the established state.
pub open spec fn m_is_relay(t: MessageType) -> bool {
    t == MessageType::Payload || t == MessageType::Control
}

/// The notice a worker implements to learn the address of a secure
/// channel created on its behalf.
pub trait SecureChannelConnectCallback: Sized {
    /// Called once with the session-local address of the new channel.
    fn secure_channel_callback(&mut self, address: Address) -> Result<bool, Error>;
}

} // verus!
