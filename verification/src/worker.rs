//! Workers: the addressable units of application logic a node dispatches
//! to, and the registrations by which new workers are introduced mid-run.
//!
//! The set of worker kinds is closed: a [`Handler`] is either a mailbox
//! worker, which stores what it receives and hands out prepared messages
//! and registrations, or a secure channel session. Handlers are owned
//! exclusively by the node's router arena; nothing is shared, and every
//! invocation runs to completion on the single scheduling thread before
//! the next.

use crate::address::{Address, AddressView};
use crate::channel::{channel_step_spec, ChannelState, SecureChannel, SecureChannelView};
use crate::error::Error;
use crate::message::{Message, MessageView};
use crate::views::lemma_deep_view_empty;
use vstd::prelude::*;

verus! {

/// Whether a worker has started successfully.
#[derive(Clone, Copy, Debug, Eq, PartialEq, Structural)]
pub enum WorkerState {
    Started,
    Failed,
}

/// A request, produced by a handler during a cycle, to bind an address
/// starting with the next cycle.
#[derive(Debug)]
pub enum WorkerRegistration {
    /// Bind `address` to a fresh mailbox worker with the given stop limit,
    /// polled each cycle if `poll` is set.
    Mailbox { address: Address, limit: Option<usize>, poll: bool },
    /// Bind `address` to the worker currently reachable at `of`.
    Alias { address: Address, of: Address },
}

/// The mathematical value of a [`WorkerRegistration`].
pub enum RegistrationView {
    Mailbox { address: AddressView, limit: Option<usize>, poll: bool },
    Alias { address: AddressView, of: AddressView },
}

impl View for WorkerRegistration {
    type V = RegistrationView;

    open spec fn view(&self) -> RegistrationView {
        match self {
            WorkerRegistration::Mailbox { address, limit, poll } => RegistrationView::Mailbox {
                address: address@,
                limit: *limit,
                poll: *poll,
            },
            WorkerRegistration::Alias { address, of } => RegistrationView::Alias {
                address: address@,
                of: of@,
            },
        }
    }
}

impl DeepView for WorkerRegistration {
    type V = RegistrationView;

    open spec fn deep_view(&self) -> RegistrationView {
        self@
    }
}

/// A worker that stores every message delivered to it, optionally stops
/// the node after a fixed number of deliveries, and hands out whatever
/// messages and registrations were prepared in its outbox.
#[derive(Debug)]
pub struct MailboxWorker {
    /// Every message delivered so far, in delivery order.
    pub received: Vec<Message>,
    /// If set, the worker reports `keep_going = false` once it has
    /// received this many messages.
    pub limit: Option<usize>,
    /// Messages handed out at the next invocation.
    pub outbox: Vec<Message>,
    /// Registrations handed out at the next invocation.
    pub announcements: Vec<WorkerRegistration>,
}

/// The mathematical value of a [`MailboxWorker`].
pub struct MailboxWorkerView {
    pub received: Seq<MessageView>,
    pub limit: Option<usize>,
    pub outbox: Seq<MessageView>,
    pub announcements: Seq<RegistrationView>,
}

impl View for MailboxWorker {
    type V = MailboxWorkerView;

    open spec fn view(&self) -> MailboxWorkerView {
        MailboxWorkerView {
            received: self.received.deep_view(),
            limit: self.limit,
            outbox: self.outbox.deep_view(),
            announcements: self.announcements.deep_view(),
        }
    }
}

impl DeepView for MailboxWorker {
    type V = MailboxWorkerView;

    open spec fn deep_view(&self) -> MailboxWorkerView {
        self@
    }
}

/// What one delivery does to a mailbox worker.
pub open spec fn mailbox_process_spec(w: MailboxWorkerView, m: MessageView) -> (
    MailboxWorkerView,
    StepOutputs,
) {
    let received = w.received.push(m);
    let keep_going = match w.limit {
        Some(l) => received.len() < l,
        None => true,
    };
    (
        MailboxWorkerView {
            received,
            outbox: Seq::empty(),
            announcements: Seq::empty(),
            ..w
        },
        StepOutputs { keep_going, messages: w.outbox, registrations: w.announcements },
    )
}

/// What a scheduler tick does to a mailbox worker.
pub open spec fn mailbox_poll_spec(w: MailboxWorkerView) -> (MailboxWorkerView, StepOutputs) {
    (
        MailboxWorkerView { outbox: Seq::empty(), announcements: Seq::empty(), ..w },
        StepOutputs { keep_going: true, messages: w.outbox, registrations: w.announcements },
    )
}

/// The value of a freshly created mailbox worker.
pub open spec fn fresh_mailbox_view(limit: Option<usize>) -> MailboxWorkerView {
    MailboxWorkerView {
        received: Seq::empty(),
        limit,
        outbox: Seq::empty(),
        announcements: Seq::empty(),
    }
}

impl MailboxWorker {
    /// A fresh worker with an empty mailbox and outbox. With `limit`
    /// `Some(n)`, the worker asks the node to stop once it has received
    /// `n` messages.
    pub fn new(limit: Option<usize>) -> (r: MailboxWorker)
        ensures
            r@ == fresh_mailbox_view(limit),
            r@.received == Seq::<MessageView>::empty(),
            r@.limit == limit,
            r@.outbox == Seq::<MessageView>::empty(),
            r@.announcements == Seq::<RegistrationView>::empty(),
    {
        let r = MailboxWorker {
            received: Vec::new(),
            limit,
            outbox: Vec::new(),
            announcements: Vec::new(),
        };
        proof {
            lemma_deep_view_empty(r.received);
            lemma_deep_view_empty(r.outbox);
            lemma_deep_view_empty(r.announcements);
        }
        r
    }

    /// Prepares a message to be handed out at the next invocation.
    pub fn push_outbox(&mut self, message: Message)
        ensures
            final(self)@ == (MailboxWorkerView {
                outbox: old(self)@.outbox.push(message@),
                ..old(self)@
            }),
    {
        self.outbox.push(message);
        proof {
            crate::views::lemma_deep_view_push(old(self).outbox, self.outbox, message);
        }
    }

    /// Prepares a registration to be handed out at the next invocation.
    pub fn announce(&mut self, registration: WorkerRegistration)
        ensures
            final(self)@ == (MailboxWorkerView {
                announcements: old(self)@.announcements.push(registration@),
                ..old(self)@
            }),
    {
        self.announcements.push(registration);
        proof {
            crate::views::lemma_deep_view_push(
                old(self).announcements,
                self.announcements,
                registration,
            );
        }
    }

    /// The messages delivered so far, in delivery order.
    pub fn received(&self) -> (r: &Vec<Message>)
        ensures
            r.deep_view() == self@.received,
    {
        &self.received
    }

    /// Stores the delivered message, drains the outbox, and reports
    /// whether the node should keep going.
    pub fn process_message(&mut self, message: Message) -> (r: (
        bool,
        Vec<Message>,
        Vec<WorkerRegistration>,
    ))
        ensures
            ({
                let (w2, out) = mailbox_process_spec(old(self)@, message@);
                &&& final(self)@ == w2
                &&& r.0 == out.keep_going
                &&& r.1.deep_view() == out.messages
                &&& r.2.deep_view() == out.registrations
            }),
    {
        self.received.push(message);
        proof {
            crate::views::lemma_deep_view_push(old(self).received, self.received, message);
        }
        let keep_going = match self.limit {
            Some(l) => self.received.len() < l,
            None => true,
        };
        let messages = self.outbox.split_off(0);
        let registrations = self.announcements.split_off(0);
        proof {
            assert(messages@ =~= old(self).outbox@);
            assert(registrations@ =~= old(self).announcements@);
            crate::views::lemma_deep_view_congruent(messages, old(self).outbox);
            crate::views::lemma_deep_view_congruent(registrations, old(self).announcements);
            lemma_deep_view_empty(self.outbox);
            lemma_deep_view_empty(self.announcements);
        }
        (keep_going, messages, registrations)
    }

    /// Drains the outbox on a scheduler tick.
    pub fn poll(&mut self) -> (r: (bool, Vec<Message>, Vec<WorkerRegistration>))
        ensures
            ({
                let (w2, out) = mailbox_poll_spec(old(self)@);
                &&& final(self)@ == w2
                &&& r.0 == out.keep_going
                &&& r.1.deep_view() == out.messages
                &&& r.2.deep_view() == out.registrations
            }),
    {
        let messages = self.outbox.split_off(0);
        let registrations = self.announcements.split_off(0);
        proof {
            assert(messages@ =~= old(self).outbox@);
            assert(registrations@ =~= old(self).announcements@);
            crate::views::lemma_deep_view_congruent(messages, old(self).outbox);
            crate::views::lemma_deep_view_congruent(registrations, old(self).announcements);
            lemma_deep_view_empty(self.outbox);
            lemma_deep_view_empty(self.announcements);
        }
        (true, messages, registrations)
    }
}

/// The handler capability of a worker: the closed set of worker kinds a
/// node can dispatch to.
#[derive(Debug)]
pub enum Handler {
    /// A mailbox worker.
    Mailbox(MailboxWorker),
    /// A secure channel session.
    Channel(SecureChannel),
}

/// The mathematical value of a [`Handler`].
pub enum HandlerView {
    Mailbox(MailboxWorkerView),
    Channel(SecureChannelView),
}

impl View for Handler {
    type V = HandlerView;

    open spec fn view(&self) -> HandlerView {
        match self {
            Handler::Mailbox(w) => HandlerView::Mailbox(w@),
            Handler::Channel(c) => HandlerView::Channel(c@),
        }
    }
}

impl DeepView for Handler {
    type V = HandlerView;

    open spec fn deep_view(&self) -> HandlerView {
        self@
    }
}

impl HandlerView {
    /// Internal consistency of a handler: a channel session is well
    /// formed, and a mailbox worker's prepared messages fit in a frame.
    pub open spec fn wf(self) -> bool {
        match self {
            HandlerView::Mailbox(w) => forall|i: int|
                0 <= i < w.outbox.len() ==> #[trigger] w.outbox[i].wf(),
            HandlerView::Channel(c) => c.wf(),
        }
    }
}

/// The output of one handler invocation: whether the node should keep
/// going, and the messages and registrations produced. They are not
/// dispatched in the producing cycle; they become input to the next one.
pub struct StepOutputs {
    pub keep_going: bool,
    pub messages: Seq<MessageView>,
    pub registrations: Seq<RegistrationView>,
}

/// What one handler invocation does: the handler afterwards, and its
/// outputs or the error it reports.
pub struct StepOutcome {
    pub handler: HandlerView,
    pub result: Result<StepOutputs, Error>,
}

/// The handler step function for one delivered message.
pub open spec fn handler_process_spec(h: HandlerView, m: MessageView) -> StepOutcome {
    match h {
        HandlerView::Mailbox(w) => {
            let (w2, out) = mailbox_process_spec(w, m);
            StepOutcome { handler: HandlerView::Mailbox(w2), result: Ok(out) }
        },
        HandlerView::Channel(c) => {
            let step = channel_step_spec(c, m);
            StepOutcome {
                handler: HandlerView::Channel(step.channel),
                result: match step.result {
                    Ok(out) => Ok(
                        StepOutputs {
                            keep_going: true,
                            messages: out.messages,
                            registrations: out.registrations,
                        },
                    ),
                    Err(e) => Err(e),
                },
            }
        },
    }
}

/// The handler step function for one scheduler tick.
pub open spec fn handler_poll_spec(h: HandlerView) -> StepOutcome {
    match h {
        HandlerView::Mailbox(w) => {
            let (w2, out) = mailbox_poll_spec(w);
            StepOutcome { handler: HandlerView::Mailbox(w2), result: Ok(out) }
        },
        HandlerView::Channel(c) => StepOutcome {
            handler: HandlerView::Channel(c),
            result: Ok(
                StepOutputs {
                    keep_going: true,
                    messages: Seq::empty(),
                    registrations: Seq::empty(),
                },
            ),
        },
    }
}

/// Whether an executable invocation outcome matches a step outcome.
pub open spec fn step_matches(
    o: StepOutcome,
    h2: HandlerView,
    r: Result<(bool, Vec<Message>, Vec<WorkerRegistration>), Error>,
) -> bool {
    &&& h2 == o.handler
    &&& match o.result {
        Ok(out) => r matches Ok(t) && t.0 == out.keep_going && t.1.deep_view() == out.messages
            && t.2.deep_view() == out.registrations,
        Err(e) => r matches Err(e2) && e2 == e,
    }
}

/// A handler step keeps the handler well formed, and on an error leaves
/// it untouched.
pub proof fn lemma_handler_step_wf(h: HandlerView, m: MessageView)
    requires
        h.wf(),
    ensures
        handler_process_spec(h, m).handler.wf(),
        handler_process_spec(h, m).result is Err ==> handler_process_spec(h, m).handler == h,
        handler_poll_spec(h).handler.wf(),
{
    match h {
        HandlerView::Mailbox(_) => {
        },
        HandlerView::Channel(c) => {
            crate::channel::lemma_channel_step_wf(c, m);
        },
    }
}

/// A handler step's outgoing messages fit in a transport frame whenever
/// the incoming one does.
pub proof fn lemma_handler_step_outputs_wf(h: HandlerView, m: MessageView)
    requires
        h.wf(),
        m.wf(),
    ensures
        handler_process_spec(h, m).result matches Ok(out) ==> forall|i: int|
            0 <= i < out.messages.len() ==> #[trigger] out.messages[i].wf(),
        handler_poll_spec(h).result matches Ok(out) ==> forall|i: int|
            0 <= i < out.messages.len() ==> #[trigger] out.messages[i].wf(),
{
    match h {
        HandlerView::Mailbox(_) => {
        },
        HandlerView::Channel(c) => {
            if channel_step_spec(c, m).result is Ok {
                crate::channel::lemma_channel_step_outputs_wf(c, m);
            }
        },
    }
}

impl Handler {
    /// Delivers one message to the worker.
    pub fn process_message(&mut self, message: Message) -> (r: Result<
        (bool, Vec<Message>, Vec<WorkerRegistration>),
        Error,
    >)
        requires
            old(self)@.wf(),
        ensures
            step_matches(handler_process_spec(old(self)@, message@), final(self)@, r),
            final(self)@.wf(),
    {
        proof {
            lemma_handler_step_wf(old(self)@, message@);
        }
        match self {
            Handler::Mailbox(w) => {
                let (keep_going, messages, registrations) = w.process_message(message);
                Ok((keep_going, messages, registrations))
            },
            Handler::Channel(c) => {
                match c.process_message(message) {
                    Ok((messages, registrations)) => Ok((true, messages, registrations)),
                    Err(e) => Err(e),
                }
            },
        }
    }

    /// Gives the worker a scheduler tick.
    pub fn poll(&mut self) -> (r: Result<(bool, Vec<Message>, Vec<WorkerRegistration>), Error>)
        requires
            old(self)@.wf(),
        ensures
            step_matches(handler_poll_spec(old(self)@), final(self)@, r),
            final(self)@.wf(),
    {
        proof {
            lemma_handler_step_wf(old(self)@, crate::message::MessageView {
                message_type: crate::message::MessageType::Payload,
                onward_route: Seq::empty(),
                return_route: Seq::empty(),
                payload: Seq::empty(),
            });
        }
        match self {
            Handler::Mailbox(w) => {
                let (keep_going, messages, registrations) = w.poll();
                Ok((keep_going, messages, registrations))
            },
            Handler::Channel(c) => {
                let (keep_going, messages, registrations) = c.poll();
                Ok((keep_going, messages, registrations))
            },
        }
    }
}

} // verus!
