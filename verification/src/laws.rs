//! The routing and handshake laws: what the dispatch and session step
//! functions guarantee, stated and proved once for all inputs.

use crate::address::AddressView;
use crate::channel::{channel_step_spec, ChannelState, SecureChannelView};
use crate::error::Error;
use crate::kex::{
    cipher_spec, kex_public_spec, kex_shared_spec, lemma_cipher_roundtrip,
    lemma_kex_shared_symmetric, KEY_LENGTH,
};
use crate::message::{MessageType, MessageView};
use crate::router::{drain_spec, register_spec, table_find, MessageRouterView};
use crate::worker::{handler_process_spec, HandlerView};
use vstd::prelude::*;

verus! {

/// The handler `h` becomes after processing `ms` in order.
pub open spec fn fold_process(h: HandlerView, ms: Seq<MessageView>) -> HandlerView
    decreases ms.len(),
{
    if ms.len() == 0 {
        h
    } else {
        fold_process(handler_process_spec(h, ms[0]).handler, ms.drop_first())
    }
}

/// The stripped messages of `queue` whose dispatch address is bound to
/// arena slot `s` in `table`: exactly what a drain delivers to that slot,
/// in order.
pub open spec fn msgs_for_slot(
    table: Seq<(AddressView, usize)>,
    queue: Seq<MessageView>,
    s: usize,
) -> Seq<MessageView>
    decreases queue.len(),
{
    if queue.len() == 0 {
        Seq::empty()
    } else {
        let m = queue[0];
        let rest = msgs_for_slot(table, queue.drop_first(), s);
        if m.onward_route.len() > 0 && table_find(table, m.onward_route[0].dispatch_address())
            == Some(s) {
            seq![m.strip_front()] + rest
        } else {
            rest
        }
    }
}

/// Dispatch is exactly by binding: when a drain runs to completion, each
/// worker ends up having processed precisely the messages whose front
/// onward address was bound to its slot, in queue order — and no others.
/// In particular a worker to whose slot no queued message was addressed is
/// untouched.
pub proof fn lemma_drain_dispatches_by_binding(
    workers: Seq<HandlerView>,
    table: Seq<(AddressView, usize)>,
    queue: Seq<MessageView>,
)
    requires
        forall|i: int| 0 <= i < table.len() ==> (#[trigger] table[i]).1 < workers.len(),
        drain_spec(workers, table, queue).result == Ok::<bool, Error>(true),
    ensures
        forall|s: usize|
            (s as int) < workers.len() ==> drain_spec(workers, table, queue).workers[s as int]
                == fold_process(#[trigger] workers[s as int], msgs_for_slot(table, queue, s)),
    decreases queue.len(),
{
    let d = drain_spec(workers, table, queue);
    if queue.len() == 0 {
    } else {
        let m = queue[0];
        let rest = queue.drop_first();
        assert(m.onward_route.len() > 0);
        let key = m.onward_route[0].dispatch_address();
        assert(table_find(table, key) is Some);
        let slot = table_find(table, key)->Some_0;
        crate::router::lemma_table_find_pos(table, key);
        let p = crate::router::table_find_pos(table, key)->Some_0;
        assert(slot == table[p].1);
        assert((slot as int) < workers.len());
        let o = handler_process_spec(workers[slot as int], m.strip_front());
        assert(o.result is Ok);
        assert(o.result->Ok_0.keep_going);
        let stepped = workers.update(slot as int, o.handler);
        let dr = drain_spec(stepped, table, rest);
        assert(d.result == dr.result);
        assert(d.workers == dr.workers);
        lemma_drain_dispatches_by_binding(stepped, table, rest);
        assert forall|s: usize|
            (s as int) < workers.len() implies d.workers[s as int] == fold_process(
            #[trigger] workers[s as int],
            msgs_for_slot(table, queue, s),
        ) by {
            assert(dr.workers[s as int] == fold_process(
                stepped[s as int],
                msgs_for_slot(table, rest, s),
            ));
            if s == slot {
                let ms = msgs_for_slot(table, queue, s);
                assert(ms == seq![m.strip_front()] + msgs_for_slot(table, rest, s));
                assert(ms.len() > 0);
                assert(ms[0] == m.strip_front());
                assert(ms.drop_first() =~= msgs_for_slot(table, rest, s));
                assert(stepped[s as int] == o.handler);
                assert(fold_process(workers[s as int], ms) == fold_process(
                    o.handler,
                    ms.drop_first(),
                ));
            } else {
                assert(stepped[s as int] == workers[s as int]);
                assert(msgs_for_slot(table, queue, s) == msgs_for_slot(table, rest, s));
            }
        }
    }
}

/// A handler folds the empty delivery to itself.
pub proof fn lemma_fold_process_empty(h: HandlerView)
    ensures
        fold_process(h, Seq::empty()) == h,
{
}

/// In a queue all of whose messages dispatch to the address `a`, bound to
/// slot `n`, slot `n` receives every message, stripped, in order, and
/// every other slot receives none.
pub proof fn lemma_msgs_for_slot_uniform(
    table: Seq<(AddressView, usize)>,
    queue: Seq<MessageView>,
    a: AddressView,
    n: usize,
)
    requires
        table_find(table, a) == Some(n),
        forall|k: int|
            0 <= k < queue.len() ==> (#[trigger] queue[k]).onward_route.len() > 0
                && queue[k].onward_route[0].dispatch_address() == a,
    ensures
        msgs_for_slot(table, queue, n) == queue.map_values(|m: MessageView| m.strip_front()),
        forall|s: usize|
            s != n ==> #[trigger] msgs_for_slot(table, queue, s) == Seq::<MessageView>::empty(),
    decreases queue.len(),
{
    let target = queue.map_values(|m: MessageView| m.strip_front());
    if queue.len() == 0 {
        assert(msgs_for_slot(table, queue, n) =~= target);
    } else {
        let rest = queue.drop_first();
        lemma_msgs_for_slot_uniform(table, rest, a, n);
        assert(msgs_for_slot(table, queue, n) == seq![queue[0].strip_front()] + msgs_for_slot(
            table,
            rest,
            n,
        ));
        assert(msgs_for_slot(table, queue, n) =~= target);
        assert forall|s: usize|
            s != n implies #[trigger] msgs_for_slot(table, queue, s) == Seq::<
            MessageView,
        >::empty() by {
            assert(msgs_for_slot(table, rest, s) == Seq::<MessageView>::empty());
        }
    }
}

/// Re-registering an address redirects all subsequent traffic for it:
/// after binding `a` to a new handler, a full drain of a queue of messages
/// all addressed to `a` folds every one of them, stripped and in order,
/// into the new handler, and every previously registered handler sees
/// none of them.
pub proof fn lemma_reregistration_redirects(
    r: MessageRouterView,
    a: AddressView,
    h: HandlerView,
    queue: Seq<MessageView>,
)
    requires
        r.wf(),
        r.workers.len() < usize::MAX,
        forall|k: int|
            0 <= k < queue.len() ==> (#[trigger] queue[k]).onward_route.len() > 0
                && queue[k].onward_route[0].dispatch_address() == a,
        drain_spec(register_spec(r, a, h).workers, register_spec(r, a, h).table, queue).result
            == Ok::<bool, Error>(true),
    ensures
        ({
            let r2 = register_spec(r, a, h);
            let d = drain_spec(r2.workers, r2.table, queue);
            let n = r.workers.len();
            &&& d.workers[n as int] == fold_process(
                h,
                queue.map_values(|m: MessageView| m.strip_front()),
            )
            &&& forall|s: int| 0 <= s < n ==> #[trigger] d.workers[s] == r.workers[s]
        }),
{
    let r2 = register_spec(r, a, h);
    let n = r.workers.len();
    crate::router::lemma_table_bind(r.table, a, n as usize);
    assert forall|i: int|
        0 <= i < r2.table.len() implies (#[trigger] r2.table[i]).1 < r2.workers.len() by {
        assert(r2.table[i].1 == n as usize || exists|k: int|
            0 <= k < r.table.len() && (#[trigger] r.table[k]).1 == r2.table[i].1);
    }
    lemma_drain_dispatches_by_binding(r2.workers, r2.table, queue);
    lemma_msgs_for_slot_uniform(r2.table, queue, a, n as usize);
    let d = drain_spec(r2.workers, r2.table, queue);
    assert(r2.workers[n as int] == h);
    assert(d.workers[n as int] == fold_process(
        r2.workers[n as int],
        msgs_for_slot(r2.table, queue, n as usize),
    ));
    assert forall|s: int| 0 <= s < n implies #[trigger] d.workers[s] == r.workers[s] by {
        let su = s as usize;
        assert(d.workers[su as int] == fold_process(
            r2.workers[su as int],
            msgs_for_slot(r2.table, queue, su),
        ));
        assert(su != n as usize);
        assert(msgs_for_slot(r2.table, queue, su) == Seq::<MessageView>::empty());
        assert(r2.workers[s] == r.workers[s]);
    }
}

/// A message with an empty onward route never reaches a handler: the
/// drain rejects it with `NoRouteSupplied` the moment it comes to the
/// front, leaving every worker exactly as it was.
pub proof fn lemma_empty_route_never_reaches_handler(
    workers: Seq<HandlerView>,
    table: Seq<(AddressView, usize)>,
    queue: Seq<MessageView>,
)
    requires
        queue.len() > 0,
        queue[0].onward_route.len() == 0,
    ensures
        drain_spec(workers, table, queue).result == Err::<bool, Error>(Error::NoRouteSupplied),
        drain_spec(workers, table, queue).workers == workers,
{
}

/// Dispatch consults the table as it stood when the cycle began: a
/// message addressed to an unbound address fails with
/// `NoHandlerForAddress` even when a registration for that address is
/// produced within the same cycle — registrations appear only in the
/// poll's outputs and take effect at the cycle boundary (see the
/// contracts of `MessageRouter::poll` and `Node::run_cycle`).
pub proof fn lemma_same_cycle_registration_invisible(
    workers: Seq<HandlerView>,
    table: Seq<(AddressView, usize)>,
    m: MessageView,
)
    requires
        m.onward_route.len() > 0,
        table_find(table, m.onward_route[0].dispatch_address()) is None,
    ensures
        drain_spec(workers, table, seq![m]).result == Err::<bool, Error>(
            Error::NoHandlerForAddress,
        ),
        drain_spec(workers, table, seq![m]).workers == workers,
{
    assert(seq![m][0] == m);
}

/// The handshake round trip: an initiator session and a responder session
/// that exchange M1, M2 and M3 both reach `Established` with the same
/// transport key, and a payload the initiator then protects is delivered,
/// byte-identical, to the responder's wrapped inner worker.
pub proof fn lemma_handshake_round_trip(
    ci: SecureChannelView,
    cr: SecureChannelView,
    m1: MessageView,
    payload: Seq<u8>,
)
    requires
        ci.wf(),
        cr.wf(),
        ci.state == ChannelState::AwaitingM2,
        cr.state == ChannelState::AwaitingM1,
        m1.message_type == MessageType::KeyAgreementM1,
        m1.payload == kex_public_spec(ci.secret),
    ensures
        ({
            let s1 = channel_step_spec(cr, m1);
            let cr2 = s1.channel;
            let m2 = s1.result->Ok_0.messages[0];
            let s2 = channel_step_spec(ci, m2);
            let ci2 = s2.channel;
            let m3 = s2.result->Ok_0.messages[0];
            let s3 = channel_step_spec(cr2, m3);
            let cr3 = s3.channel;
            &&& s1.result is Ok
            &&& s2.result is Ok
            &&& s3.result is Ok
            &&& ci2.state == ChannelState::Established
            &&& cr3.state == ChannelState::Established
            &&& ci2.transport_key == cr3.transport_key
            &&& ({
                let control = MessageView {
                    message_type: MessageType::Control,
                    onward_route: Seq::empty(),
                    return_route: Seq::empty(),
                    payload,
                };
                let wire = channel_step_spec(ci2, control).result->Ok_0.messages[0];
                let delivered = channel_step_spec(cr3, wire).result->Ok_0.messages[0];
                &&& wire.message_type == MessageType::Payload
                &&& delivered.payload == payload
                &&& delivered.onward_route == seq![cr3.inner_address]
            })
        }),
{
    let s1 = channel_step_spec(cr, m1);
    let cr2 = s1.channel;
    let m2 = s1.result->Ok_0.messages[0];
    let s2 = channel_step_spec(ci, m2);
    let ci2 = s2.channel;
    let m3 = s2.result->Ok_0.messages[0];
    let s3 = channel_step_spec(cr2, m3);
    let cr3 = s3.channel;
    assert(m1.payload.len() == KEY_LENGTH);
    assert(m2.payload == kex_public_spec(cr.secret));
    assert(m2.payload.len() == KEY_LENGTH);
    assert(m3.payload == kex_public_spec(ci.secret));
    assert(cr2.peer_public == kex_public_spec(ci.secret));
    assert(ci2.transport_key == Some(kex_shared_spec(ci.secret, kex_public_spec(cr.secret))));
    assert(cr3.transport_key == Some(kex_shared_spec(cr.secret, kex_public_spec(ci.secret))));
    lemma_kex_shared_symmetric(ci.secret, cr.secret);
    let key = kex_shared_spec(ci.secret, kex_public_spec(cr.secret));
    assert(key.len() == KEY_LENGTH);
    let control = MessageView {
        message_type: MessageType::Control,
        onward_route: Seq::empty(),
        return_route: Seq::empty(),
        payload,
    };
    let wire = channel_step_spec(ci2, control).result->Ok_0.messages[0];
    assert(wire.payload == cipher_spec(key, payload));
    let delivered = channel_step_spec(cr3, wire).result->Ok_0.messages[0];
    assert(delivered.payload == cipher_spec(key, cipher_spec(key, payload)));
    lemma_cipher_roundtrip(key, payload);
}

} // verus!
