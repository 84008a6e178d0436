//! The wire-level message envelope.
//!
//! A message carries a type tag, an onward route (remaining hops), a return
//! route (the way back to the sender) and an opaque payload. Messages are
//! value types: once enqueued, ownership transfers to the queue; once
//! dequeued, ownership transfers to the handler invoked.

use crate::address::{Address, AddressView};
use crate::route::Route;
use vstd::prelude::*;

verus! {

/// The maximum payload size of a single transport frame, in bytes.
pub const MAX_MESSAGE_SIZE: usize = 4096;

/// The tag of a message, selecting how its payload is interpreted.
#[derive(Clone, Copy, Debug, PartialEq, Eq, Structural)]
pub enum MessageType {
    /// Ordinary (possibly encrypted) application traffic.
    Payload,
    /// First handshake message, initiator to responder.
    KeyAgreementM1,
    /// Second handshake message, responder to initiator.
    KeyAgreementM2,
    /// Third handshake message, initiator to responder.
    KeyAgreementM3,
    /// Local plaintext handed to a secure channel for sending.
    Control,
}

/// The wire-level envelope.
#[derive(Debug)]
pub struct Message {
    pub message_type: MessageType,
    pub onward_route: Route,
    pub return_route: Route,
    pub payload: Vec<u8>,
}

/// The mathematical value of a [`Message`].
pub struct MessageView {
    pub message_type: MessageType,
    pub onward_route: Seq<AddressView>,
    pub return_route: Seq<AddressView>,
    pub payload: Seq<u8>,
}

impl View for Message {
    type V = MessageView;

    open spec fn view(&self) -> MessageView {
        MessageView {
            message_type: self.message_type,
            onward_route: self.onward_route@,
            return_route: self.return_route@,
            payload: self.payload@,
        }
    }
}

impl DeepView for Message {
    type V = MessageView;

    open spec fn deep_view(&self) -> MessageView {
        self@
    }
}

impl MessageView {
    /// A message is well formed when its payload fits in one transport frame.
    pub open spec fn wf(self) -> bool {
        self.payload.len() <= MAX_MESSAGE_SIZE
    }

    /// The same message with the front onward address removed.
    pub open spec fn strip_front(self) -> MessageView {
        MessageView { onward_route: self.onward_route.drop_first(), ..self }
    }
}

impl Message {
    /// An empty payload message with empty routes.
    pub fn empty() -> (r: Message)
        ensures
            r@.message_type == MessageType::Payload,
            r@.onward_route == Seq::<AddressView>::empty(),
            r@.return_route == Seq::<AddressView>::empty(),
            r@.payload == Seq::<u8>::empty(),
    {
        Message {
            message_type: MessageType::Payload,
            onward_route: Route::empty(),
            return_route: Route::empty(),
            payload: Vec::new(),
        }
    }

    /// Appends an address at the back of the onward route.
    pub fn onward_add(&mut self, address: Address)
        ensures
            final(self)@.onward_route == old(self)@.onward_route.push(address@),
            final(self)@.return_route == old(self)@.return_route,
            final(self)@.message_type == old(self)@.message_type,
            final(self)@.payload == old(self)@.payload,
    {
        self.onward_route.append(address);
    }

    /// Appends an address at the back of the return route.
    pub fn return_add(&mut self, address: Address)
        ensures
            final(self)@.return_route == old(self)@.return_route.push(address@),
            final(self)@.onward_route == old(self)@.onward_route,
            final(self)@.message_type == old(self)@.message_type,
            final(self)@.payload == old(self)@.payload,
    {
        self.return_route.append(address);
    }
}

impl Clone for Message {
    fn clone(&self) -> (r: Self)
        ensures
            r@ == self@,
    {
        Message {
            message_type: self.message_type,
            onward_route: self.onward_route.clone(),
            return_route: self.return_route.clone(),
            payload: crate::address::copy_bytes(&self.payload),
        }
    }
}

/// A step-by-step constructor for messages.
#[derive(Debug)]
pub struct MessageBuilder {
    pub message_type: Option<MessageType>,
    pub payload: Option<Vec<u8>>,
    pub onward_route: Route,
    pub return_route: Route,
}

/// The mathematical value of a [`MessageBuilder`].
pub struct MessageBuilderView {
    pub message_type: Option<MessageType>,
    pub payload: Option<Seq<u8>>,
    pub onward_route: Seq<AddressView>,
    pub return_route: Seq<AddressView>,
}

impl View for MessageBuilder {
    type V = MessageBuilderView;

    open spec fn view(&self) -> MessageBuilderView {
        MessageBuilderView {
            message_type: self.message_type,
            payload: match self.payload {
                Some(p) => Some(p@),
                None => None,
            },
            onward_route: self.onward_route@,
            return_route: self.return_route@,
        }
    }
}

impl MessageBuilderView {
    /// The message a builder in this state builds: a missing type defaults
    /// to `Payload`, a missing payload to the empty payload.
    pub open spec fn built(self) -> MessageView {
        MessageView {
            message_type: if self.message_type is Some {
                self.message_type->Some_0
            } else {
                MessageType::Payload
            },
            onward_route: self.onward_route,
            return_route: self.return_route,
            payload: if self.payload is Some {
                self.payload->Some_0
            } else {
                Seq::empty()
            },
        }
    }
}

impl MessageBuilder {
    /// Starts a builder with nothing set.
    pub fn message() -> (r: MessageBuilder)
        ensures
            r@.message_type is None,
            r@.payload is None,
            r@.onward_route == Seq::<AddressView>::empty(),
            r@.return_route == Seq::<AddressView>::empty(),
    {
        MessageBuilder {
            message_type: None,
            payload: None,
            onward_route: Route::empty(),
            return_route: Route::empty(),
        }
    }

    /// Sets the message type.
    pub fn message_type(self, message_type: MessageType) -> (r: Self)
        ensures
            r@ == (MessageBuilderView { message_type: Some(message_type), ..self@ }),
    {
        MessageBuilder { message_type: Some(message_type), ..self }
    }

    /// Sets the payload.
    pub fn payload(self, payload: Vec<u8>) -> (r: Self)
        ensures
            r@ == (MessageBuilderView { payload: Some(payload@), ..self@ }),
    {
        MessageBuilder { payload: Some(payload), ..self }
    }

    /// Sets an empty payload.
    pub fn empty(self) -> (r: Self)
        ensures
            r@ == (MessageBuilderView { payload: Some(Seq::<u8>::empty()), ..self@ }),
    {
        let empty_payload: Vec<u8> = Vec::new();
        MessageBuilder { payload: Some(empty_payload), ..self }
    }

    /// Replaces the onward route.
    pub fn onward_route(self, onward_route: Route) -> (r: Self)
        ensures
            r@ == (MessageBuilderView { onward_route: onward_route@, ..self@ }),
    {
        MessageBuilder { onward_route, ..self }
    }

    /// Replaces the return route.
    pub fn return_route(self, return_route: Route) -> (r: Self)
        ensures
            r@ == (MessageBuilderView { return_route: return_route@, ..self@ }),
    {
        MessageBuilder { return_route, ..self }
    }

    /// Appends one address at the back of the return route.
    pub fn return_to(self, ret: Address) -> (r: Self)
        ensures
            r@ == (MessageBuilderView { return_route: self@.return_route.push(ret@), ..self@ }),
    {
        let mut return_route = self.return_route;
        return_route.append(ret);
        MessageBuilder { return_route, ..self }
    }

    /// Appends one address at the back of the onward route.
    pub fn onward_to(self, onward: Address) -> (r: Self)
        ensures
            r@ == (MessageBuilderView { onward_route: self@.onward_route.push(onward@), ..self@ }),
    {
        let mut onward_route = self.onward_route;
        onward_route.append(onward);
        MessageBuilder { onward_route, ..self }
    }

    /// Builds the message, defaulting a missing type to `Payload` and a
    /// missing payload to the empty payload.
    pub fn build(self) -> (r: Message)
        ensures
            r@ == self@.built(),
    {
        let message_type = match self.message_type {
            Some(t) => t,
            None => MessageType::Payload,
        };
        let payload = match self.payload {
            Some(p) => p,
            None => Vec::new(),
        };
        Message { message_type, onward_route: self.onward_route, return_route: self.return_route, payload }
    }
}

} // verus!
