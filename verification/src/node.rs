//! The node: the top-level cooperative scheduler.
//!
//! One cycle is: (1) poll the router, draining and dispatching every
//! currently queued message; (2) poll every poll-capable worker in
//! registration order; (3) apply all registrations produced during the
//! cycle; (4) enqueue all messages produced during the cycle. Steps 3 and
//! 4 run only after all polling is done, so a worker can never observe, or
//! be dispatched to, within the cycle it registers in: everything produced
//! during cycle N becomes visible in cycle N + 1. The cycle reports a stop
//! as soon as the router or any polled worker signals `keep_going =
//! false`, and reports the first fatal error a handler or the router
//! raises.
//!
//! Scheduling is single-threaded and cooperative: handlers run to
//! completion, one at a time. The caller of [`Node::run_cycle`] decides
//! the pacing between cycles, typically a fixed sleep quantum; nothing
//! here blocks.

use crate::address::{Address, AddressView};
use crate::channel::{m1_message, ChannelState, SecureChannel};
use crate::error::Error;
use crate::message::{Message, MessageView};
use crate::router::{drain_spec, table_bind_spec, table_find, MessageRouter, MessageRouterView};
use crate::route::Route;
use crate::views::{lemma_deep_view_concat, lemma_deep_view_empty};
use crate::worker::{
    handler_poll_spec, Handler, HandlerView, RegistrationView, WorkerRegistration,
};
use vstd::prelude::*;

verus! {

/// A node: a message router plus the list of arena slots that get a
/// scheduler tick each cycle, in registration order.
#[derive(Debug)]
pub struct Node {
    /// The router owning the dispatch table, the worker arena and the
    /// pending message queue.
    pub message_router: MessageRouter,
    /// The arena slots polled each cycle, in registration order.
    pub modules_to_poll: Vec<usize>,
    /// The node's role, kept for diagnostics.
    pub role: String,
}

/// The mathematical value of a [`Node`].
pub struct NodeView {
    pub router: MessageRouterView,
    pub polls: Seq<usize>,
}

impl View for Node {
    type V = NodeView;

    open spec fn view(&self) -> NodeView {
        NodeView { router: self.message_router@, polls: self.modules_to_poll@ }
    }
}

impl NodeView {
    /// Internal consistency: the router is well formed and every polled
    /// slot points into the arena.
    pub open spec fn wf(self) -> bool {
        &&& self.router.wf()
        &&& forall|i: int|
            0 <= i < self.polls.len() ==> (#[trigger] self.polls[i]) < self.router.workers.len()
    }
}

/// What polling the listed workers in order does: each gets one tick;
/// their outputs are concatenated; the first worker to report
/// `keep_going = false` stops the pass at once, leaving the rest unpolled.
pub open spec fn polls_spec(workers: Seq<HandlerView>, polls: Seq<usize>) -> PollsOutcome
    decreases polls.len(),
{
    if polls.len() == 0 {
        PollsOutcome {
            workers,
            keep_going: true,
            messages: Seq::empty(),
            registrations: Seq::empty(),
        }
    } else {
        let slot = polls[0];
        let o = handler_poll_spec(workers[slot as int]);
        let stepped = workers.update(slot as int, o.handler);
        let out = o.result->Ok_0;
        if !out.keep_going {
            PollsOutcome {
                workers: stepped,
                keep_going: false,
                messages: out.messages,
                registrations: out.registrations,
            }
        } else {
            let rest = polls_spec(stepped, polls.drop_first());
            PollsOutcome {
                workers: rest.workers,
                keep_going: rest.keep_going,
                messages: out.messages + rest.messages,
                registrations: out.registrations + rest.registrations,
            }
        }
    }
}

/// The outcome of one polling pass over the listed workers.
pub struct PollsOutcome {
    pub workers: Seq<HandlerView>,
    pub keep_going: bool,
    pub messages: Seq<MessageView>,
    pub registrations: Seq<RegistrationView>,
}

/// What applying the cycle's registrations in order does to the router
/// and the poll list.
pub open spec fn apply_regs_spec(
    router: MessageRouterView,
    polls: Seq<usize>,
    regs: Seq<RegistrationView>,
) -> (MessageRouterView, Seq<usize>)
    decreases regs.len(),
{
    if regs.len() == 0 {
        (router, polls)
    } else {
        let (r2, poll_slot) = MessageRouter::apply_registration_spec(router, regs[0]);
        let polls2 = match poll_slot {
            Some(slot) => polls.push(slot),
            None => polls,
        };
        apply_regs_spec(r2, polls2, regs.drop_first())
    }
}

/// The outcome of one full scheduler cycle.
pub struct CycleOutcome {
    pub node: NodeView,
    pub result: Result<bool, Error>,
}

/// The cycle function: drain the router; if it neither stopped nor
/// failed, poll the listed workers in order; if none stopped, apply every
/// registration produced in the cycle and enqueue every message produced
/// in the cycle. A stop or error ends the cycle at once, discarding the
/// cycle's outputs.
pub open spec fn cycle_spec(n: NodeView) -> CycleOutcome {
    let d = drain_spec(n.router.workers, n.router.table, n.router.queue);
    let router1 = MessageRouterView { workers: d.workers, queue: d.queue, ..n.router };
    match d.result {
        Err(e) => CycleOutcome {
            node: NodeView { router: router1, polls: n.polls },
            result: Err(e),
        },
        Ok(keep1) => {
            if !keep1 {
                CycleOutcome {
                    node: NodeView { router: router1, polls: n.polls },
                    result: Ok(false),
                }
            } else {
                let p = polls_spec(d.workers, n.polls);
                let router2 = MessageRouterView { workers: p.workers, ..router1 };
                if !p.keep_going {
                    CycleOutcome {
                        node: NodeView { router: router2, polls: n.polls },
                        result: Ok(false),
                    }
                } else {
                    let (router3, polls3) = apply_regs_spec(
                        router2,
                        n.polls,
                        d.registrations + p.registrations,
                    );
                    let router4 = MessageRouterView {
                        queue: router3.queue + (d.messages + p.messages),
                        ..router3
                    };
                    CycleOutcome {
                        node: NodeView { router: router4, polls: polls3 },
                        result: Ok(true),
                    }
                }
            }
        },
    }
}

/// What running up to `fuel` cycles does: cycles run while they report
/// `Ok(true)`; the budget running out reports `Ok(true)` with the node as
/// it stands.
pub open spec fn run_spec(n: NodeView, fuel: nat) -> (NodeView, Result<bool, Error>)
    decreases fuel,
{
    if fuel == 0 {
        (n, Ok(true))
    } else {
        let c = cycle_spec(n);
        if c.result == Ok::<bool, Error>(true) {
            run_spec(c.node, (fuel - 1) as nat)
        } else {
            (c.node, c.result)
        }
    }
}

impl Node {
    /// A fresh node with no workers and nothing queued.
    pub fn new(role: &str) -> (r: Node)
        ensures
            r@.router.queue == Seq::<MessageView>::empty(),
            r@.router.workers == Seq::<HandlerView>::empty(),
            r@.router.table == Seq::<(AddressView, usize)>::empty(),
            r@.polls == Seq::<usize>::empty(),
            r@.wf(),
    {
        Node {
            message_router: MessageRouter::new(),
            modules_to_poll: Vec::new(),
            role: role.to_string(),
        }
    }

    /// Registers a worker: binds `address` to it, replacing any previous
    /// binding, and gives it a scheduler tick each cycle if `poll` is set.
    /// Always succeeds.
    pub fn register_worker(&mut self, address: Address, handler: Handler, poll: bool) -> (r:
        Result<bool, Error>)
        requires
            old(self)@.wf(),
            handler@.wf(),
        ensures
            r == Ok::<bool, Error>(true),
            final(self)@.router == crate::router::register_spec(
                old(self)@.router,
                address@,
                handler@,
            ),
            final(self)@.polls == if poll {
                old(self)@.polls.push(old(self)@.router.workers.len() as usize)
            } else {
                old(self)@.polls
            },
            final(self)@.wf(),
            table_find(final(self)@.router.table, address@) == Some(
                old(self)@.router.workers.len() as usize,
            ),
    {
        let slot = match self.message_router.register_message_handler(address, handler) {
            Ok(slot) => slot,
            Err(_) => {
                proof {
                    assert(false);
                }
                return Err(Error::WorkerRuntime);
            },
        };
        if poll {
            self.modules_to_poll.push(slot);
        }
        proof {
            assert forall|i: int|
                0 <= i < self@.polls.len() implies (#[trigger] self@.polls[i])
                < self@.router.workers.len() by {
                if i < old(self)@.polls.len() {
                    assert(self@.polls[i] == old(self)@.polls[i]);
                }
            }
        }
        Ok(true)
    }

    /// Starts an initiator secure channel to a peer reachable over
    /// `route`: registers the session as a worker at its freshly minted
    /// session-local address and queues its first handshake message.
    /// Deciphered payloads arriving after establishment are forwarded to
    /// `inner_address`. Returns the session's local address.
    pub fn create_secure_channel(&mut self, route: Route, inner_address: Address) -> (r: Address)
        requires
            old(self)@.wf(),
        ensures
            final(self)@.wf(),
            ({
                let n = old(self)@.router.workers.len();
                let c = final(self)@.router.workers[n as int]->Channel_0;
                &&& final(self)@.router.workers.len() == n + 1
                &&& final(self)@.router.workers[n as int] matches HandlerView::Channel(_)
                &&& final(self)@.router.workers.subrange(0, n as int) == old(self)@.router.workers
                &&& c.state == ChannelState::AwaitingM2
                &&& c.route == route@
                &&& c.inner_address == inner_address@
                &&& c.address == r@
                &&& c.session_address == r@
                &&& final(self)@.router.table == table_bind_spec(
                    old(self)@.router.table,
                    r@,
                    n as usize,
                )
                &&& table_find(final(self)@.router.table, r@) == Some(n as usize)
                &&& final(self)@.router.queue == old(self)@.router.queue.push(
                    m1_message(c, route@),
                )
                &&& final(self)@.polls == old(self)@.polls
            }),
    {
        let (session, m1) = SecureChannel::create(route, inner_address);
        let address = session.session_address();
        let ghost cview = session@;
        let first_empty: Vec<Message> = Vec::new();
        let mut first = first_empty;
        proof {
            lemma_deep_view_empty(first);
        }
        first.push(m1);
        proof {
            assert(first.deep_view() =~= seq![m1@]);
            assert(m1@.payload.len() == crate::kex::KEY_LENGTH);
            assert(m1@.wf());
            assert forall|i: int|
                0 <= i < first@.len() implies (#[trigger] first@[i]@).wf() by {
                assert(first@[i] == m1);
            }
        }
        let _ = match self.message_router.register_message_handler(
            address.clone(),
            Handler::Channel(session),
        ) {
            Ok(slot) => slot,
            Err(_) => {
                proof {
                    assert(false);
                }
                0
            },
        };
        let _ = self.message_router.enqueue_messages(first);
        proof {
            assert(self@.router.workers.subrange(0, old(self)@.router.workers.len() as int)
                =~= old(self)@.router.workers);
            assert(self@.router.queue =~= old(self)@.router.queue.push(
                m1_message(cview, cview.route),
            ));
            assert forall|k: int|
                0 <= k < self@.polls.len() implies (#[trigger] self@.polls[k])
                < self@.router.workers.len() by {
                assert(self@.polls[k] == old(self)@.polls[k]);
            }
        }
        address
    }

    /// Appends messages at the back of the router's pending queue.
    pub fn enqueue_messages(&mut self, messages: Vec<Message>) -> (r: Result<bool, Error>)
        requires
            old(self)@.wf(),
            forall|i: int| 0 <= i < messages@.len() ==> (#[trigger] messages@[i]@).wf(),
        ensures
            r == Ok::<bool, Error>(true),
            final(self)@.router == (MessageRouterView {
                queue: old(self)@.router.queue + messages.deep_view(),
                ..old(self)@.router
            }),
            final(self)@.polls == old(self)@.polls,
            final(self)@.wf(),
    {
        self.message_router.enqueue_messages(messages)
    }

    /// Runs one full scheduler cycle.
    pub fn run_cycle(&mut self) -> (r: Result<bool, Error>)
        requires
            old(self)@.wf(),
        ensures
            final(self)@ == cycle_spec(old(self)@).node,
            r == cycle_spec(old(self)@).result,
            final(self)@.wf(),
    {
        let ghost n0 = self@;
        let ghost d = drain_spec(n0.router.workers, n0.router.table, n0.router.queue);
        // Step 1: drain and dispatch everything queued.
        let (keep1, mut messages, mut registrations) = match self.message_router.poll() {
            Ok(t) => t,
            Err(e) => {
                return Err(e);
            },
        };
        if !keep1 {
            return Ok(false);
        }
        // Step 2: give every poll-capable worker its tick, in order.
        let ghost p = polls_spec(d.workers, n0.polls);
        let ghost polls0 = self.modules_to_poll@;
        proof {
            assert(polls0.subrange(0, polls0.len() as int) =~= polls0);
            assert forall|k: int|
                0 <= k < self@.polls.len() implies (#[trigger] self@.polls[k])
                < self@.router.workers.len() by {
                assert(self@.polls[k] == n0.polls[k]);
            }
        }
        let mut i: usize = 0;
        while i < self.modules_to_poll.len()
            invariant
                old(self)@.wf(),
                self@.wf(),
                i <= polls0.len(),
                self.modules_to_poll@ == polls0,
                polls0 == n0.polls,
                self@.router.table == n0.router.table,
                self@.router.queue == d.queue,
                d == drain_spec(n0.router.workers, n0.router.table, n0.router.queue),
                d.result == Ok::<bool, Error>(true),
                p == polls_spec(d.workers, n0.polls),
                n0 == old(self)@,
                ({
                    let oc = polls_spec(self@.router.workers, polls0.subrange(
                        i as int,
                        polls0.len() as int,
                    ));
                    &&& p.workers == oc.workers
                    &&& p.keep_going == oc.keep_going
                    &&& d.messages + p.messages == messages.deep_view() + oc.messages
                    &&& d.registrations + p.registrations == registrations.deep_view()
                        + oc.registrations
                }),
                forall|k: int|
                    0 <= k < messages.deep_view().len() ==> (
                    #[trigger] messages.deep_view()[k]).wf(),
            decreases polls0.len() - i,
        {
            let ghost pre = self@;
            let ghost remaining = polls0.subrange(i as int, polls0.len() as int);
            let ghost oc = polls_spec(pre.router.workers, remaining);
            proof {
                assert(remaining[0] == polls0[i as int]);
                assert(remaining.drop_first() =~= polls0.subrange(
                    (i + 1) as int,
                    polls0.len() as int,
                ));
            }
            let slot = self.modules_to_poll[i];
            proof {
                assert(slot == self@.polls[i as int]);
                assert(slot < self@.router.workers.len());
            }
            let (keep, mut ms, mut rs) = match self.message_router.poll_worker(slot) {
                Ok(t) => t,
                Err(e) => {
                    proof {
                        assert(handler_poll_spec(pre.router.workers[slot as int]).result is Ok);
                        assert(false);
                    }
                    return Err(e);
                },
            };
            let ghost hstep = handler_poll_spec(pre.router.workers[slot as int]);
            let ghost out = hstep.result->Ok_0;
            proof {
                assert(self@.router.workers.len() == pre.router.workers.len());
                assert forall|k: int|
                    0 <= k < self@.polls.len() implies (#[trigger] self@.polls[k])
                    < self@.router.workers.len() by {
                    assert(self@.polls[k] == pre.polls[k]);
                }
            }
            if !keep {
                proof {
                    assert(oc.keep_going == false);
                    assert(oc.workers == self@.router.workers);
                }
                return Ok(false);
            }
            let ghost pre_m = messages;
            let ghost pre_r = registrations;
            let ghost ms_snapshot = ms;
            let ghost rs_snapshot = rs;
            messages.append(&mut ms);
            registrations.append(&mut rs);
            proof {
                lemma_deep_view_concat(pre_m, ms_snapshot, messages);
                lemma_deep_view_concat(pre_r, rs_snapshot, registrations);
                let onext = polls_spec(self@.router.workers, remaining.drop_first());
                assert(oc.workers == onext.workers);
                assert(oc.keep_going == onext.keep_going);
                assert(oc.messages == out.messages + onext.messages);
                assert(oc.registrations == out.registrations + onext.registrations);
                assert(pre_m.deep_view() + (out.messages + onext.messages) =~= (pre_m.deep_view()
                    + out.messages) + onext.messages);
                assert(pre_r.deep_view() + (out.registrations + onext.registrations) =~= (
                pre_r.deep_view() + out.registrations) + onext.registrations);
                assert forall|k: int|
                    0 <= k < messages.deep_view().len() implies (
                #[trigger] messages.deep_view()[k]).wf() by {
                    if k < pre_m.deep_view().len() {
                        assert(messages.deep_view()[k] == pre_m.deep_view()[k]);
                    } else {
                        assert(messages.deep_view()[k] == ms_snapshot.deep_view()[k
                            - pre_m.deep_view().len()]);
                    }
                }
            }
            i = i + 1;
        }
        proof {
            let oc = polls_spec(self@.router.workers, polls0.subrange(
                polls0.len() as int,
                polls0.len() as int,
            ));
            assert(polls0.subrange(polls0.len() as int, polls0.len() as int) =~= Seq::<
                usize,
            >::empty());
            assert(oc.workers == self@.router.workers);
            assert(messages.deep_view() + oc.messages =~= messages.deep_view());
            assert(registrations.deep_view() + oc.registrations =~= registrations.deep_view());
            assert(d.messages + p.messages == messages.deep_view());
            assert(d.registrations + p.registrations == registrations.deep_view());
        }
        // Step 3: apply the cycle's registrations, insert or overwrite.
        let ghost regs_total = d.registrations + p.registrations;
        let ghost router2 = self@.router;
        let ghost polls_pre = self@.polls;
        let ghost target = apply_regs_spec(router2, polls_pre, regs_total);
        while registrations.len() > 0
            invariant
                old(self)@.wf(),
                self@.wf(),
                self@.router.queue == router2.queue,
                target == apply_regs_spec(self@.router, self@.polls, registrations.deep_view()),
                target == apply_regs_spec(router2, polls_pre, regs_total),
                forall|k: int|
                    0 <= k < messages.deep_view().len() ==> (
                    #[trigger] messages.deep_view()[k]).wf(),
            decreases registrations@.len(),
        {
            let ghost pre_regs = registrations;
            let ghost pre_apply = self@;
            let reg = registrations.remove(0);
            proof {
                crate::views::lemma_deep_view_remove_front(pre_regs, registrations);
                assert(reg@ == pre_regs.deep_view()[0]);
            }
            match self.message_router.apply_registration(reg) {
                Some(slot) => {
                    self.modules_to_poll.push(slot);
                    proof {
                        assert forall|k: int|
                            0 <= k < self@.polls.len() implies (#[trigger] self@.polls[k])
                            < self@.router.workers.len() by {
                            if k < self@.polls.len() - 1 {
                                assert(self@.polls[k] == pre_apply.polls[k]);
                            }
                        }
                    }
                },
                None => {
                },
            }
        }
        // Step 4: everything produced this cycle is input to the next.
        proof {
            assert forall|k: int|
                0 <= k < messages@.len() implies (#[trigger] messages@[k]@).wf() by {
                assert(messages@[k]@ == messages.deep_view()[k]);
            }
        }
        let _ = self.message_router.enqueue_messages(messages);
        Ok(true)
    }

    /// Runs scheduler cycles until a component asks to stop (`Ok(false)`),
    /// a cycle fails (`Err`), or `max_cycles` cycles have run (`Ok(true)`).
    /// The caller owns the pacing between cycles.
    pub fn run(&mut self, max_cycles: usize) -> (r: Result<bool, Error>)
        requires
            old(self)@.wf(),
        ensures
            final(self)@ == run_spec(old(self)@, max_cycles as nat).0,
            r == run_spec(old(self)@, max_cycles as nat).1,
            final(self)@.wf(),
    {
        let mut i: usize = 0;
        while i < max_cycles
            invariant
                i <= max_cycles,
                self@.wf(),
                run_spec(old(self)@, max_cycles as nat) == run_spec(
                    self@,
                    (max_cycles - i) as nat,
                ),
            decreases max_cycles - i,
        {
            let ghost pre = self@;
            match self.run_cycle() {
                Ok(true) => {
                },
                Ok(false) => {
                    proof {
                        assert(run_spec(pre, (max_cycles - i) as nat) == (
                            self@,
                            Ok::<bool, Error>(false),
                        ));
                    }
                    return Ok(false);
                },
                Err(e) => {
                    proof {
                        assert(run_spec(pre, (max_cycles - i) as nat) == (
                            self@,
                            Err::<bool, Error>(e),
                        ));
                    }
                    return Err(e);
                },
            }
            i = i + 1;
        }
        Ok(true)
    }
}

} // verus!
