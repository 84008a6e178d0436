//! The message router: the address-keyed dispatch table and the poll-driven
//! message pump.
//!
//! The router owns an arena of workers and a table binding addresses to
//! arena slots; the last registration for an address wins. Its `poll`
//! drains the pending queue front to back: for each message it strips the
//! front onward address, looks the stripped address up (transport-class
//! addresses map to the single well-known transport address), and invokes
//! the bound handler. Whatever messages and registrations a handler
//! returns are accumulated, never dispatched in the same cycle: the table
//! is left untouched until the node applies the registrations at the
//! cycle boundary. An empty onward route and a missing handler are fatal
//! errors that abort the cycle; no fallback address is ever substituted
//! for an empty route, since silent substitution would mask routing bugs.
//! A handler reporting `keep_going = false` stops the drain at once,
//! leaving the rest of the queue for the next cycle.

use crate::address::{Address, AddressView};
use crate::error::Error;
use crate::message::{Message, MessageView};
use crate::views::{
    lemma_deep_view_concat, lemma_deep_view_empty, lemma_deep_view_push,
    lemma_deep_view_remove_front, lemma_deep_view_update,
};
use crate::worker::{
    handler_process_spec, handler_poll_spec, lemma_handler_step_outputs_wf, Handler, HandlerView,
    RegistrationView, WorkerRegistration,
};
use vstd::prelude::*;

verus! {

/// A binding of an address to an arena slot.
pub type TableEntry = (Address, usize);

/// The message router.
#[derive(Debug)]
pub struct MessageRouter {
    /// The pending messages, front first.
    pub message_queue: Vec<Message>,
    /// The worker arena. Slots are stable: registration appends, and a
    /// replaced worker's slot is left in place so aliases keep meaning.
    pub workers: Vec<Handler>,
    /// The dispatch table: which arena slot each address is bound to.
    pub table: Vec<TableEntry>,
}

/// The mathematical value of a [`MessageRouter`].
pub struct MessageRouterView {
    pub queue: Seq<MessageView>,
    pub workers: Seq<HandlerView>,
    pub table: Seq<(AddressView, usize)>,
}

impl View for MessageRouter {
    type V = MessageRouterView;

    open spec fn view(&self) -> MessageRouterView {
        MessageRouterView {
            queue: self.message_queue.deep_view(),
            workers: self.workers.deep_view(),
            table: self.table.deep_view(),
        }
    }
}

impl MessageRouterView {
    /// Internal consistency: every table binding points into the arena,
    /// no address is bound twice, and every worker and queued message is
    /// well formed.
    pub open spec fn wf(self) -> bool {
        &&& forall|i: int|
            0 <= i < self.table.len() ==> (#[trigger] self.table[i]).1 < self.workers.len()
        &&& forall|i: int, j: int|
            0 <= i < j < self.table.len() ==> (#[trigger] self.table[i]).0 != (
            #[trigger] self.table[j]).0
        &&& forall|i: int| 0 <= i < self.workers.len() ==> (#[trigger] self.workers[i]).wf()
        &&& forall|i: int| 0 <= i < self.queue.len() ==> (#[trigger] self.queue[i]).wf()
    }
}

/// The position in `table` of the first (and, in a well-formed router,
/// only) binding for `address`.
pub open spec fn table_find_pos(
    table: Seq<(AddressView, usize)>,
    address: AddressView,
) -> Option<int>
    decreases table.len(),
{
    if table.len() == 0 {
        None
    } else if table[0].0 == address {
        Some(0)
    } else {
        match table_find_pos(table.drop_first(), address) {
            Some(p) => Some(p + 1),
            None => None,
        }
    }
}

/// The arena slot bound to `address`, if any.
pub open spec fn table_find(
    table: Seq<(AddressView, usize)>,
    address: AddressView,
) -> Option<usize> {
    match table_find_pos(table, address) {
        Some(p) => Some(table[p].1),
        None => None,
    }
}

/// What `table_find_pos` finds: the first matching position, or nothing
/// when no position matches.
pub proof fn lemma_table_find_pos(table: Seq<(AddressView, usize)>, address: AddressView)
    ensures
        match table_find_pos(table, address) {
            Some(p) => 0 <= p < table.len() && table[p].0 == address && forall|j: int|
                0 <= j < p ==> (#[trigger] table[j]).0 != address,
            None => forall|j: int| 0 <= j < table.len() ==> (#[trigger] table[j]).0 != address,
        },
    decreases table.len(),
{
    if table.len() > 0 && table[0].0 != address {
        let rest = table.drop_first();
        lemma_table_find_pos(rest, address);
        match table_find_pos(rest, address) {
            Some(p) => {
                assert(table[p + 1] == rest[p]);
                assert forall|j: int| 0 <= j < p + 1 implies (#[trigger] table[j]).0 != address by {
                    if j > 0 {
                        assert(rest[j - 1] == table[j]);
                    }
                }
            },
            None => {
                assert forall|j: int|
                    0 <= j < table.len() implies (#[trigger] table[j]).0 != address by {
                    if j > 0 {
                        assert(rest[j - 1] == table[j]);
                    }
                }
            },
        }
    }
}

/// A position that matches, with no match before it, is what
/// `table_find_pos` finds.
pub proof fn lemma_table_find_pos_of_first(
    table: Seq<(AddressView, usize)>,
    address: AddressView,
    p: int,
)
    requires
        0 <= p < table.len(),
        table[p].0 == address,
        forall|j: int| 0 <= j < p ==> (#[trigger] table[j]).0 != address,
    ensures
        table_find_pos(table, address) == Some(p),
    decreases table.len(),
{
    if p > 0 {
        lemma_table_find_pos_of_first(table.drop_first(), address, p - 1);
    }
}

/// Binding `address` to `slot`: an existing binding for the address is
/// repointed, otherwise a binding is appended.
pub open spec fn table_bind_spec(
    table: Seq<(AddressView, usize)>,
    address: AddressView,
    slot: usize,
) -> Seq<(AddressView, usize)> {
    match table_find_pos(table, address) {
        Some(p) => table.update(p, (address, slot)),
        None => table.push((address, slot)),
    }
}

/// What registering a handler does: the handler is appended to the arena
/// and the address is bound to the new slot.
pub open spec fn register_spec(r: MessageRouterView, address: AddressView, h: HandlerView)
    -> MessageRouterView {
    MessageRouterView {
        workers: r.workers.push(h),
        table: table_bind_spec(r.table, address, r.workers.len() as usize),
        ..r
    }
}

/// Binding an address keeps a well-formed table well formed and makes
/// `table_find` yield the new slot for that address, leaving every other
/// address's binding unchanged.
pub proof fn lemma_table_bind(table: Seq<(AddressView, usize)>, address: AddressView, slot: usize)
    requires
        forall|i: int, j: int|
            0 <= i < j < table.len() ==> (#[trigger] table[i]).0 != (#[trigger] table[j]).0,
    ensures
        ({
            let t2 = table_bind_spec(table, address, slot);
            &&& forall|i: int, j: int|
                0 <= i < j < t2.len() ==> (#[trigger] t2[i]).0 != (#[trigger] t2[j]).0
            &&& table_find(t2, address) == Some(slot)
            &&& forall|a: AddressView|
                a != address ==> #[trigger] table_find(t2, a) == table_find(table, a)
            &&& forall|i: int|
                0 <= i < t2.len() ==> ((#[trigger] t2[i]).1 == slot || exists|k: int|
                    0 <= k < table.len() && (#[trigger] table[k]).1 == t2[i].1)
        }),
{
    let t2 = table_bind_spec(table, address, slot);
    lemma_table_find_pos(table, address);
    match table_find_pos(table, address) {
        Some(p) => {
            assert forall|i: int, j: int| 0 <= i < j < t2.len() implies (#[trigger] t2[i]).0 != (
            #[trigger] t2[j]).0 by {
                assert(table[i].0 == t2[i].0 || i == p);
                assert(table[j].0 == t2[j].0 || j == p);
            }
            lemma_table_find_pos_of_first(t2, address, p);
            assert forall|a: AddressView| a != address implies #[trigger] table_find(t2, a)
                == table_find(table, a) by {
                lemma_table_find_pos(t2, a);
                lemma_table_find_pos(table, a);
                match table_find_pos(table, a) {
                    Some(q) => {
                        assert(t2[q].0 == a);
                        lemma_table_find_pos_of_first(t2, a, q);
                    },
                    None => {
                        if table_find_pos(t2, a) is Some {
                            let q = table_find_pos(t2, a)->Some_0;
                            assert(t2[q].0 == a);
                            assert(table[q].0 == a);
                        }
                    },
                }
            }
        },
        None => {
            assert forall|i: int, j: int| 0 <= i < j < t2.len() implies (#[trigger] t2[i]).0 != (
            #[trigger] t2[j]).0 by {
                if j < table.len() {
                } else {
                    assert(t2[j].0 == address);
                    assert(table[i].0 != address);
                }
            }
            lemma_table_find_pos_of_first(t2, address, table.len() as int);
            assert forall|a: AddressView| a != address implies #[trigger] table_find(t2, a)
                == table_find(table, a) by {
                lemma_table_find_pos(t2, a);
                lemma_table_find_pos(table, a);
                match table_find_pos(table, a) {
                    Some(q) => {
                        assert(t2[q].0 == a);
                        lemma_table_find_pos_of_first(t2, a, q);
                    },
                    None => {
                        if table_find_pos(t2, a) is Some {
                            let q = table_find_pos(t2, a)->Some_0;
                            assert(t2[q].0 == a);
                            if q < table.len() {
                                assert(table[q].0 == a);
                            }
                        }
                    },
                }
            }
        },
    }
}

/// What draining the queue does: the final workers and queue, the result
/// handed to the scheduler, and the messages and registrations accumulated
/// for the next cycle (meaningful only when the result is not an error;
/// an error aborts the cycle and discards them).
pub struct DrainOutcome {
    pub result: Result<bool, Error>,
    pub workers: Seq<HandlerView>,
    pub queue: Seq<MessageView>,
    pub messages: Seq<MessageView>,
    pub registrations: Seq<RegistrationView>,
}

/// The drain function: process the queue front to back. The front message
/// is consumed; an empty onward route or an unbound dispatch address is a
/// fatal error; otherwise the front address is stripped and the bound
/// handler is stepped. A handler error is fatal. A handler reporting
/// `keep_going = false` stops the drain at once, leaving the rest of the
/// queue in place. The dispatch table is never consulted for more than
/// lookup: registrations take effect only at the cycle boundary.
pub open spec fn drain_spec(
    workers: Seq<HandlerView>,
    table: Seq<(AddressView, usize)>,
    queue: Seq<MessageView>,
) -> DrainOutcome
    decreases queue.len(),
{
    if queue.len() == 0 {
        DrainOutcome {
            result: Ok(true),
            workers,
            queue,
            messages: Seq::empty(),
            registrations: Seq::empty(),
        }
    } else {
        let m = queue[0];
        let rest = queue.drop_first();
        if m.onward_route.len() == 0 {
            DrainOutcome {
                result: Err(Error::NoRouteSupplied),
                workers,
                queue: rest,
                messages: Seq::empty(),
                registrations: Seq::empty(),
            }
        } else {
            let key = m.onward_route[0].dispatch_address();
            match table_find(table, key) {
                None => DrainOutcome {
                    result: Err(Error::NoHandlerForAddress),
                    workers,
                    queue: rest,
                    messages: Seq::empty(),
                    registrations: Seq::empty(),
                },
                Some(slot) => {
                    let o = handler_process_spec(workers[slot as int], m.strip_front());
                    let stepped = workers.update(slot as int, o.handler);
                    match o.result {
                        Err(e) => DrainOutcome {
                            result: Err(e),
                            workers: stepped,
                            queue: rest,
                            messages: Seq::empty(),
                            registrations: Seq::empty(),
                        },
                        Ok(out) => {
                            if !out.keep_going {
                                DrainOutcome {
                                    result: Ok(false),
                                    workers: stepped,
                                    queue: rest,
                                    messages: out.messages,
                                    registrations: out.registrations,
                                }
                            } else {
                                let r = drain_spec(stepped, table, rest);
                                DrainOutcome {
                                    result: r.result,
                                    workers: r.workers,
                                    queue: r.queue,
                                    messages: out.messages + r.messages,
                                    registrations: out.registrations + r.registrations,
                                }
                            }
                        },
                    }
                },
            }
        }
    }
}

impl MessageRouter {
    /// An empty router: no pending messages, no workers, no bindings.
    pub fn new() -> (r: MessageRouter)
        ensures
            r@.queue == Seq::<MessageView>::empty(),
            r@.workers == Seq::<HandlerView>::empty(),
            r@.table == Seq::<(AddressView, usize)>::empty(),
            r@.wf(),
    {
        let r = MessageRouter { message_queue: Vec::new(), workers: Vec::new(), table: Vec::new() };
        proof {
            lemma_deep_view_empty(r.message_queue);
            lemma_deep_view_empty(r.workers);
            lemma_deep_view_empty(r.table);
        }
        r
    }

    /// The number of pending messages.
    pub fn pending_messages(&self) -> (n: usize)
        ensures
            n == self@.queue.len(),
    {
        self.message_queue.len()
    }

    /// Appends messages at the back of the pending queue, preserving their
    /// order. Always succeeds.
    pub fn enqueue_messages(&mut self, messages: Vec<Message>) -> (r: Result<bool, Error>)
        requires
            forall|i: int|
                0 <= i < messages@.len() ==> (#[trigger] messages@[i]@).wf(),
        ensures
            r == Ok::<bool, Error>(true),
            final(self)@ == (MessageRouterView {
                queue: old(self)@.queue + messages.deep_view(),
                ..old(self)@
            }),
            old(self)@.wf() ==> final(self)@.wf(),
    {
        let ghost pre = self.message_queue;
        let mut incoming = messages;
        self.message_queue.append(&mut incoming);
        proof {
            lemma_deep_view_concat(pre, messages, self.message_queue);
            if old(self)@.wf() {
                assert forall|i: int|
                    0 <= i < self@.queue.len() implies (#[trigger] self@.queue[i]).wf() by {
                    if i >= pre.deep_view().len() {
                        assert(self@.queue[i] == messages.deep_view()[i - pre.deep_view().len()]);
                        assert(messages.deep_view()[i - pre.deep_view().len()] == messages@[i
                            - pre.deep_view().len()]@);
                    } else {
                        assert(self@.queue[i] == old(self)@.queue[i]);
                    }
                }
            }
        }
        Ok(true)
    }

    /// The position of `address` in the dispatch table.
    fn find_position(&self, address: &Address) -> (r: Option<usize>)
        ensures
            match r {
                Some(p) => table_find_pos(self@.table, address@) == Some(p as int),
                None => table_find_pos(self@.table, address@) is None,
            },
    {
        let mut i: usize = 0;
        while i < self.table.len()
            invariant
                i <= self.table.len(),
                forall|j: int| 0 <= j < i ==> (#[trigger] self@.table[j]).0 != address@,
            decreases self.table.len() - i,
        {
            if self.table[i].0 == *address {
                proof {
                    assert(self@.table[i as int].0 == address@);
                    lemma_table_find_pos_of_first(self@.table, address@, i as int);
                }
                return Some(i);
            }
            proof {
                assert(self@.table[i as int].0 == self.table@[i as int].0@);
            }
            i = i + 1;
        }
        proof {
            lemma_table_find_pos(self@.table, address@);
            if table_find_pos(self@.table, address@) is Some {
                let p = table_find_pos(self@.table, address@)->Some_0;
                assert(self@.table[p].0 == address@);
            }
        }
        None
    }

    /// A borrow of the handler bound to `address`, if any.
    pub fn handler_at(&self, address: &Address) -> (r: Option<&Handler>)
        requires
            self@.wf(),
        ensures
            match table_find(self@.table, address@) {
                Some(slot) => r matches Some(h) && h@ == self@.workers[slot as int],
                None => r is None,
            },
    {
        proof {
            lemma_table_find_pos(self@.table, address@);
        }
        match self.find_position(address) {
            Some(p) => {
                let slot = self.table[p].1;
                proof {
                    assert(self@.table[p as int].1 == slot);
                }
                Some(&self.workers[slot])
            },
            None => None,
        }
    }

    /// Binds `address` to the arena slot `slot`, repointing any existing
    /// binding for that address.
    fn bind_address(&mut self, address: Address, slot: usize)
        requires
            old(self)@.wf(),
            slot < old(self)@.workers.len(),
        ensures
            final(self)@ == (MessageRouterView {
                table: table_bind_spec(old(self)@.table, address@, slot),
                ..old(self)@
            }),
            final(self)@.wf(),
    {
        proof {
            lemma_table_bind(old(self)@.table, address@, slot);
        }
        let ghost pre_table = self.table;
        match self.find_position(&address) {
            Some(p) => {
                proof {
                    lemma_table_find_pos(self@.table, address@);
                }
                self.table[p] = (address, slot);
                proof {
                    lemma_deep_view_update(pre_table, self.table, p as int, (address, slot));
                    assert(self@.table =~= table_bind_spec(old(self)@.table, address@, slot));
                }
            },
            None => {
                self.table.push((address, slot));
                proof {
                    lemma_deep_view_push(pre_table, self.table, (address, slot));
                    assert(self@.table =~= table_bind_spec(old(self)@.table, address@, slot));
                }
            },
        }
        proof {
            let t2 = self@.table;
            assert forall|i: int|
                0 <= i < t2.len() implies (#[trigger] t2[i]).1 < self@.workers.len() by {
                assert(t2[i].1 == slot || exists|k: int|
                    0 <= k < old(self)@.table.len() && (#[trigger] old(self)@.table[k]).1
                        == t2[i].1);
            }
        }
    }

    /// Replaces any existing handler for `address` with `handler`; always
    /// succeeds. The handler is placed in a fresh arena slot and the
    /// address is bound to it; aliases of a previously bound worker keep
    /// their meaning. Returns the new slot.
    pub fn register_message_handler(&mut self, address: Address, handler: Handler) -> (r: Result<
        usize,
        Error,
    >)
        requires
            old(self)@.wf(),
            handler@.wf(),
        ensures
            r == Ok::<usize, Error>((old(self)@.workers.len() as usize)),
            final(self)@ == register_spec(old(self)@, address@, handler@),
            final(self)@.wf(),
            table_find(final(self)@.table, address@) == Some(old(self)@.workers.len() as usize),
            forall|a: AddressView|
                a != address@ ==> #[trigger] table_find(final(self)@.table, a) == table_find(
                    old(self)@.table,
                    a,
                ),
    {
        let slot = self.workers.len();
        let ghost pre_workers = self.workers;
        self.workers.push(handler);
        proof {
            lemma_deep_view_push(pre_workers, self.workers, handler);
            assert forall|i: int|
                0 <= i < self@.workers.len() implies (#[trigger] self@.workers[i]).wf() by {
                if i < old(self)@.workers.len() {
                    assert(self@.workers[i] == old(self)@.workers[i]);
                } else {
                    assert(self@.workers[i] == handler@);
                }
            }
            lemma_table_bind(old(self)@.table, address@, slot);
            assert(self@.table == old(self)@.table);
            assert(self@.queue == old(self)@.queue);
            assert forall|i: int|
                0 <= i < self@.table.len() implies (#[trigger] self@.table[i]).1
                < self@.workers.len() by {
                assert(self@.table[i] == old(self)@.table[i]);
            }
            assert(self@.wf());
        }
        self.bind_address(address, slot);
        Ok(slot)
    }

    /// The number of arena slots in use.
    pub fn worker_count(&self) -> (n: usize)
        ensures
            n == self@.workers.len(),
    {
        self.workers.len()
    }

    /// Gives the worker in `slot` a scheduler tick.
    pub fn poll_worker(&mut self, slot: usize) -> (r: Result<
        (bool, Vec<Message>, Vec<WorkerRegistration>),
        Error,
    >)
        requires
            old(self)@.wf(),
            slot < old(self)@.workers.len(),
        ensures
            final(self)@ == (MessageRouterView {
                workers: old(self)@.workers.update(
                    slot as int,
                    handler_poll_spec(old(self)@.workers[slot as int]).handler,
                ),
                ..old(self)@
            }),
            final(self)@.wf(),
            crate::worker::step_matches(
                handler_poll_spec(old(self)@.workers[slot as int]),
                final(self)@.workers[slot as int],
                r,
            ),
            r matches Ok(t) ==> forall|i: int|
                0 <= i < t.1.deep_view().len() ==> (#[trigger] t.1.deep_view()[i]).wf(),
    {
        let ghost pre_workers = self.workers;
        proof {
            lemma_handler_step_outputs_wf(
                self@.workers[slot as int],
                MessageView {
                    message_type: crate::message::MessageType::Payload,
                    onward_route: Seq::empty(),
                    return_route: Seq::empty(),
                    payload: Seq::empty(),
                },
            );
        }
        let res = self.workers[slot].poll();
        proof {
            lemma_deep_view_update(
                pre_workers,
                self.workers,
                slot as int,
                self.workers@[slot as int],
            );
            assert forall|i: int|
                0 <= i < self@.workers.len() implies (#[trigger] self@.workers[i]).wf() by {
                if i != slot {
                    assert(self@.workers[i] == old(self)@.workers[i]);
                }
            }
        }
        res
    }

    /// What applying one registration does: a `Mailbox` registration puts
    /// a fresh mailbox worker in a new slot and binds the address to it,
    /// reporting the slot when it is to be polled; an `Alias` registration
    /// binds a further address to the worker its target address is bound
    /// to, and is discarded when the target is unknown.
    pub open spec fn apply_registration_spec(r: MessageRouterView, reg: RegistrationView) -> (
        MessageRouterView,
        Option<usize>,
    ) {
        match reg {
            RegistrationView::Mailbox { address, limit, poll } => {
                let slot = r.workers.len() as usize;
                let r2 = MessageRouterView {
                    workers: r.workers.push(
                        HandlerView::Mailbox(crate::worker::fresh_mailbox_view(limit)),
                    ),
                    table: table_bind_spec(r.table, address, slot),
                    ..r
                };
                (r2, if poll { Some(slot) } else { None })
            },
            RegistrationView::Alias { address, of } => {
                match table_find(r.table, of) {
                    Some(slot) => (
                        MessageRouterView { table: table_bind_spec(r.table, address, slot), ..r },
                        None,
                    ),
                    None => (r, None),
                }
            },
        }
    }

    /// Applies one registration produced during the finished cycle.
    /// Returns the slot of a new worker that asked to be polled.
    pub fn apply_registration(&mut self, registration: WorkerRegistration) -> (r: Option<usize>)
        requires
            old(self)@.wf(),
        ensures
            ({
                let (r2, poll_slot) = MessageRouter::apply_registration_spec(
                    old(self)@,
                    registration@,
                );
                &&& final(self)@ == r2
                &&& r == poll_slot
                &&& final(self)@.wf()
                &&& old(self)@.workers.len() <= final(self)@.workers.len()
            }),
    {
        match registration {
            WorkerRegistration::Mailbox { address, limit, poll } => {
                let worker = Handler::Mailbox(crate::worker::MailboxWorker::new(limit));
                let slot = match self.register_message_handler(address, worker) {
                    Ok(slot) => slot,
                    Err(_) => {
                        proof {
                            assert(false);
                        }
                        return None;
                    },
                };
                if poll {
                    Some(slot)
                } else {
                    None
                }
            },
            WorkerRegistration::Alias { address, of } => {
                match self.find_position(&of) {
                    Some(p) => {
                        proof {
                            lemma_table_find_pos(self@.table, of@);
                        }
                        let slot = self.table[p].1;
                        proof {
                            assert(self@.table[p as int].1 == slot);
                        }
                        self.bind_address(address, slot);
                        None
                    },
                    None => None,
                }
            },
        }
    }

    /// Drains the pending queue to completion, stop or error, dispatching
    /// each message to the handler its stripped front onward address is
    /// bound to, and accumulating — never dispatching — what the handlers
    /// produce. The dispatch table is left untouched: registrations
    /// produced during this poll are only returned, so they cannot be
    /// observed by dispatch within the same cycle.
    pub fn poll(&mut self) -> (r: Result<(bool, Vec<Message>, Vec<WorkerRegistration>), Error>)
        requires
            old(self)@.wf(),
        ensures
            ({
                let o = drain_spec(old(self)@.workers, old(self)@.table, old(self)@.queue);
                &&& final(self)@.table == old(self)@.table
                &&& final(self)@.workers == o.workers
                &&& final(self)@.workers.len() == old(self)@.workers.len()
                &&& final(self)@.queue == o.queue
                &&& final(self)@.wf()
                &&& match r {
                    Ok(t) => o.result == Ok::<bool, Error>(t.0) && t.1.deep_view() == o.messages
                        && t.2.deep_view() == o.registrations && forall|i: int|
                        0 <= i < t.1.deep_view().len() ==> (#[trigger] t.1.deep_view()[i]).wf(),
                    Err(e) => o.result == Err::<bool, Error>(e),
                }
            }),
    {
        let ghost t0 = self@.table;
        let ghost o = drain_spec(self@.workers, self@.table, self@.queue);
        let mut out_messages: Vec<Message> = Vec::new();
        let mut out_registrations: Vec<WorkerRegistration> = Vec::new();
        proof {
            lemma_deep_view_empty(out_messages);
            lemma_deep_view_empty(out_registrations);
            assert(Seq::<MessageView>::empty() + o.messages =~= o.messages);
            assert(Seq::<RegistrationView>::empty() + o.registrations =~= o.registrations);
        }
        let mut keep_going = true;
        loop
            invariant_except_break
                keep_going == true,
                forall|i: int|
                    0 <= i < out_messages.deep_view().len() ==> (
                    #[trigger] out_messages.deep_view()[i]).wf(),
                ({
                    let oc = drain_spec(self@.workers, t0, self@.queue);
                    &&& o.result == oc.result
                    &&& o.workers == oc.workers
                    &&& o.queue == oc.queue
                    &&& o.messages == out_messages.deep_view() + oc.messages
                    &&& o.registrations == out_registrations.deep_view() + oc.registrations
                }),
            invariant
                self@.wf(),
                self@.table == t0,
                self@.workers.len() == old(self)@.workers.len(),
                t0 == old(self)@.table,
                o == drain_spec(old(self)@.workers, old(self)@.table, old(self)@.queue),
            ensures
                o.result == Ok::<bool, Error>(keep_going),
                o.workers == self@.workers,
                o.queue == self@.queue,
                o.messages == out_messages.deep_view(),
                o.registrations == out_registrations.deep_view(),
                forall|i: int|
                    0 <= i < out_messages.deep_view().len() ==> (
                    #[trigger] out_messages.deep_view()[i]).wf(),
            decreases self@.queue.len(),
        {
            let ghost pre = self@;
            let ghost oc = drain_spec(pre.workers, t0, pre.queue);
            if self.message_queue.len() == 0 {
                proof {
                    assert(pre.queue.len() == 0);
                    assert(oc.result == Ok::<bool, Error>(true));
                    assert(oc.workers == pre.workers);
                    assert(oc.queue == pre.queue);
                    assert(oc.messages == Seq::<MessageView>::empty());
                    assert(oc.registrations == Seq::<RegistrationView>::empty());
                    assert(out_messages.deep_view() + oc.messages =~= out_messages.deep_view());
                    assert(out_registrations.deep_view() + oc.registrations
                        =~= out_registrations.deep_view());
                }
                break;
            }
            let ghost pre_queue_vec = self.message_queue;
            let mut m = self.message_queue.remove(0);
            proof {
                lemma_deep_view_remove_front(pre_queue_vec, self.message_queue);
                assert(m@ == pre.queue[0]);
                assert forall|i: int|
                    0 <= i < self@.queue.len() implies (#[trigger] self@.queue[i]).wf() by {
                    assert(self@.queue[i] == pre.queue[i + 1]);
                }
            }
            let front = match m.onward_route.step() {
                Some(front) => front,
                None => {
                    proof {
                        assert(oc.result == Err::<bool, Error>(Error::NoRouteSupplied));
                    }
                    return Err(Error::NoRouteSupplied);
                },
            };
            proof {
                assert(m@ == pre.queue[0].strip_front());
                assert(front@ == pre.queue[0].onward_route[0]);
            }
            let key = front.dispatch_address();
            let p = match self.find_position(&key) {
                Some(p) => p,
                None => {
                    proof {
                        assert(table_find(t0, key@) is None);
                        assert(oc.result == Err::<bool, Error>(Error::NoHandlerForAddress));
                    }
                    return Err(Error::NoHandlerForAddress);
                },
            };
            proof {
                lemma_table_find_pos(self@.table, key@);
            }
            let slot = self.table[p].1;
            proof {
                assert(self@.table[p as int].1 == slot);
                assert(table_find(t0, key@) == Some(slot));
                assert(slot < self@.workers.len());
            }
            let ghost pre_workers_vec = self.workers;
            let ghost hstep = handler_process_spec(pre.workers[slot as int], m@);
            let res = self.workers[slot].process_message(m);
            proof {
                lemma_deep_view_update(
                    pre_workers_vec,
                    self.workers,
                    slot as int,
                    self.workers@[slot as int],
                );
                assert(self@.workers == pre.workers.update(slot as int, hstep.handler));
                assert forall|i: int|
                    0 <= i < self@.workers.len() implies (#[trigger] self@.workers[i]).wf() by {
                    if i != slot {
                        assert(self@.workers[i] == pre.workers[i]);
                    }
                }
            }
            match res {
                Err(e) => {
                    proof {
                        assert(oc.result == Err::<bool, Error>(e));
                    }
                    return Err(e);
                },
                Ok((keep, mut msgs, mut regs)) => {
                    let ghost step_messages = hstep.result->Ok_0.messages;
                    let ghost step_registrations = hstep.result->Ok_0.registrations;
                    let ghost pre_om = out_messages;
                    let ghost pre_or = out_registrations;
                    let ghost msgs_snapshot = msgs;
                    let ghost regs_snapshot = regs;
                    out_messages.append(&mut msgs);
                    out_registrations.append(&mut regs);
                    proof {
                        lemma_deep_view_concat(pre_om, msgs_snapshot, out_messages);
                        lemma_deep_view_concat(pre_or, regs_snapshot, out_registrations);
                        assert(out_messages.deep_view() == pre_om.deep_view() + step_messages);
                        assert(out_registrations.deep_view() == pre_or.deep_view()
                            + step_registrations);
                        lemma_handler_step_outputs_wf(pre.workers[slot as int], m@);
                        assert forall|i: int|
                            0 <= i < out_messages.deep_view().len() implies (
                        #[trigger] out_messages.deep_view()[i]).wf() by {
                            if i < pre_om.deep_view().len() {
                                assert(out_messages.deep_view()[i] == pre_om.deep_view()[i]);
                            } else {
                                assert(out_messages.deep_view()[i] == step_messages[i
                                    - pre_om.deep_view().len()]);
                            }
                        }
                    }
                    if !keep {
                        keep_going = false;
                        proof {
                            assert(oc.result == Ok::<bool, Error>(false));
                            assert(oc.workers == self@.workers);
                            assert(oc.queue == self@.queue);
                            assert(oc.messages == step_messages);
                            assert(oc.registrations == step_registrations);
                            assert(o.messages == pre_om.deep_view() + step_messages);
                            assert(o.registrations == pre_or.deep_view() + step_registrations);
                        }
                        break;
                    }
                    proof {
                        let onext = drain_spec(self@.workers, t0, self@.queue);
                        assert(oc.result == onext.result);
                        assert(oc.workers == onext.workers);
                        assert(oc.queue == onext.queue);
                        assert(oc.messages == step_messages + onext.messages);
                        assert(oc.registrations == step_registrations + onext.registrations);
                        assert(pre_om.deep_view() + (step_messages + onext.messages) =~= (
                        pre_om.deep_view() + step_messages) + onext.messages);
                        assert(pre_or.deep_view() + (step_registrations + onext.registrations)
                            =~= (pre_or.deep_view() + step_registrations) + onext.registrations);
                    }
                },
            }
        }
        Ok((keep_going, out_messages, out_registrations))
    }
}

} // verus!
