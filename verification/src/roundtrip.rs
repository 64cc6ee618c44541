//! The fragmentation round trip: feeding a reassembler the packet train of
//! one message, in order, reproduces exactly that message.

use vstd::prelude::*;
use crate::wire::{SEQ_MOD, TAG_MOD, spec_decode, lemma_encode_decode};
use crate::router::{RouterView, ReqView, ListView, inbound_spec, route_spec, recv_spec, rv_wf,
    lemma_find_opt_first, is_req_handle, is_listener_handle, listener_index, MAX_REQUESTS};
use crate::frag::{FragSetup, spec_chunks, chunk_count, spec_packets, spec_packet_at,
    spec_header_at, lemma_chunks_facts, lemma_chunk_count_at_least_one};
use crate::reasm::{ReasmView, MsgView, absorb_spec, find_slot, find_free,
    lemma_find_slot_props, lemma_find_free_props, MAX_REASSEMBLY, clear_key, opened_state,
    state_message};

verus! {

/// Feeds a train of raw packets to a reassembler state, in order, and
/// collects the messages that complete.
pub open spec fn feed(slots: Seq<Option<ReasmView>>, pkts: Seq<Seq<u8>>)
    -> (Seq<Option<ReasmView>>, Seq<MsgView>)
    decreases pkts.len(),
{
    if pkts.len() == 0 {
        (slots, Seq::empty())
    } else {
        let step = match spec_decode(pkts[0]) {
            Some((h, chunk)) => absorb_spec(slots, h, chunk),
            None => (slots, Err(())),
        };
        let rest = feed(step.0, pkts.drop_first());
        (rest.0, match step.1 {
            Ok(Some(m)) => seq![m] + rest.1,
            _ => rest.1,
        })
    }
}

/// The message one fragment train carries.
pub open spec fn train_message(setup: FragSetup, payload: Seq<u8>) -> MsgView {
    MsgView {
        source: setup.src,
        dest: setup.dest,
        msg_type: setup.msg_type,
        ic: setup.ic,
        tag: setup.tag,
        tag_owned: setup.tag_owned,
        payload,
    }
}

/// The reassembly state after the first `k` packets of a train, while the
/// message is still open.
pub open spec fn mid_state(setup: FragSetup, payload: Seq<u8>, mtu: nat, k: nat) -> ReasmView {
    ReasmView {
        src: setup.src,
        tag: setup.tag,
        tag_owned: setup.tag_owned,
        dest: setup.dest,
        msg_type: setup.msg_type,
        ic: setup.ic,
        total_len: payload.len() as u64,
        next_seq: ((k % (SEQ_MOD as nat)) as u8),
        data: payload.take((k * mtu) as int),
    }
}

/// Feeding the rest of a train into its open mid-state completes the
/// message and frees the slot.
proof fn lemma_feed_from(setup: FragSetup, payload: Seq<u8>, mtu: nat,
    slots: Seq<Option<ReasmView>>, i: int, k: nat)
    requires
        mtu >= 1,
        setup.tag < TAG_MOD,
        payload.len() <= u64::MAX,
        0 <= i < slots.len(),
        1 <= k < chunk_count(payload, mtu),
        slots[i] == Some(mid_state(setup, payload, mtu, k)),
        find_slot(slots, setup.src, setup.tag, setup.tag_owned) == Some(i),
    ensures
        feed(slots, spec_packets(setup, payload, mtu).skip(k as int))
            == (slots.update(i, None), seq![train_message(setup, payload)]),
    decreases chunk_count(payload, mtu) - k,
{
    let pkts = spec_packets(setup, payload, mtu);
    let cc = chunk_count(payload, mtu);
    let tail = pkts.skip(k as int);
    let h = spec_header_at(setup, payload, mtu, k as int);
    let chunk = spec_chunks(payload, mtu)[k as int];
    assert(tail[0] == spec_packet_at(setup, payload, mtu, k as int));
    lemma_encode_decode(h, chunk);
    assert(spec_decode(tail[0]) == Some((h, chunk)));
    lemma_chunks_facts(payload, mtu, k);
    assert((k + 1) * mtu == k * mtu + mtu) by (nonlinear_arith);
    let st = mid_state(setup, payload, mtu, k);
    assert(!h.som);
    assert(h.seq == st.next_seq) by {
        assert((k % (SEQ_MOD as nat)) == (k as int) % (SEQ_MOD as int));
    }
    let joined = st.data + chunk;
    let hi: int = if payload.len() <= (k + 1) * mtu { payload.len() as int } else { ((k + 1) * mtu) as int };
    assert(chunk =~= payload.subrange((k * mtu) as int, hi));
    assert(joined =~= payload.take(hi));
    assert(st.data.len() + chunk.len() == hi);
    assert(hi <= payload.len());
    let step = absorb_spec(slots, h, chunk);
    if k + 1 == cc {
        // the last packet: it closes the message
        assert(h.eom);
        assert(payload.len() <= (k + 1) * mtu);
        assert(hi == payload.len());
        assert(joined =~= payload);
        assert(st.data.len() + chunk.len() == st.total_len);
        assert(step == (slots.update(i, None),
            Ok::<Option<MsgView>, ()>(Some(state_message(st, joined)))));
        assert(state_message(st, joined) == train_message(setup, payload));
        assert(tail.drop_first() =~= pkts.skip(k as int + 1));
        assert(pkts.skip(k as int + 1).len() == 0);
        assert(feed(step.0, tail.drop_first()) == (step.0, Seq::<MsgView>::empty()));
        assert(seq![train_message(setup, payload)] + Seq::<MsgView>::empty()
            =~= seq![train_message(setup, payload)]);
    } else {
        // a middle packet: the message stays open, one chunk longer
        assert(!h.eom);
        assert(payload.len() > (k + 1) * mtu);
        assert(st.data.len() + chunk.len() <= st.total_len);
        let st2 = ReasmView {
            next_seq: ((h.seq + 1) % (SEQ_MOD as int)) as u8,
            data: st.data + chunk,
            ..st
        };
        assert(step == (slots.update(i, Some(st2)), Ok::<Option<MsgView>, ()>(None)));
        assert(st2 =~~= mid_state(setup, payload, mtu, k + 1)) by {
            assert((((k as int) % (SEQ_MOD as int)) + 1) % (SEQ_MOD as int)
                == ((k + 1) as int) % (SEQ_MOD as int)) by (nonlinear_arith);
            assert(st2.data =~= payload.take(((k + 1) * mtu) as int));
        }
        let slots2 = slots.update(i, Some(st2));
        assert(find_slot(slots2, setup.src, setup.tag, setup.tag_owned) == Some(i)) by {
            lemma_find_slot_props(slots, setup.src, setup.tag, setup.tag_owned);
            crate::reasm::lemma_find_slot_first(slots2, setup.src, setup.tag,
                setup.tag_owned, i);
        }
        lemma_feed_from(setup, payload, mtu, slots2, i, k + 1);
        assert(tail.drop_first() =~= pkts.skip(k as int + 1));
        assert(slots2.update(i, None) =~= slots.update(i, None));
    }
}

/// Law: the fragmentation round trip.  Starting from a reassembler with no
/// open message under the train's key — and a free slot where the train
/// has more than one packet — feeding the whole packet train of a message,
/// in order, delivers exactly that message and returns the slot table to
/// its starting state.
pub proof fn lemma_fragment_reassemble(setup: FragSetup, payload: Seq<u8>, mtu: nat,
    slots: Seq<Option<ReasmView>>)
    requires
        mtu >= 1,
        setup.tag < TAG_MOD,
        payload.len() <= u64::MAX,
        slots.len() == MAX_REASSEMBLY,
        find_slot(slots, setup.src, setup.tag, setup.tag_owned) is None,
        chunk_count(payload, mtu) > 1 ==> find_free(slots) is Some,
    ensures
        feed(slots, spec_packets(setup, payload, mtu))
            == (slots, seq![train_message(setup, payload)]),
{
    let pkts = spec_packets(setup, payload, mtu);
    let cc = chunk_count(payload, mtu);
    lemma_chunk_count_at_least_one(payload, mtu);
    let h = spec_header_at(setup, payload, mtu, 0);
    let chunk = spec_chunks(payload, mtu)[0];
    assert(pkts[0] == spec_packet_at(setup, payload, mtu, 0));
    lemma_encode_decode(h, chunk);
    assert(spec_decode(pkts[0]) == Some((h, chunk)));
    lemma_chunks_facts(payload, mtu, 0);
    assert(0 * mtu == 0) by (nonlinear_arith);
    assert(1 * mtu == mtu) by (nonlinear_arith);
    assert(h.som);
    assert(clear_key(slots, setup.src, setup.tag, setup.tag_owned) == slots);
    let step = absorb_spec(slots, h, chunk);
    if cc == 1 {
        assert(h.eom);
        assert(chunk =~= payload);
        assert(chunk.len() == h.total_len);
        assert(step == (slots, Ok::<Option<MsgView>, ()>(
            Some(state_message(opened_state(h, chunk), chunk)))));
        assert(state_message(opened_state(h, chunk), chunk) == train_message(setup, payload));
        assert(pkts.drop_first() =~= pkts.skip(1));
        assert(pkts.skip(1).len() == 0);
        assert(feed(step.0, pkts.drop_first()) == (step.0, Seq::<MsgView>::empty()));
        assert(seq![train_message(setup, payload)] + Seq::<MsgView>::empty()
            =~= seq![train_message(setup, payload)]);
    } else {
        assert(!h.eom);
        assert(payload.len() > mtu);
        assert(chunk =~= payload.take(mtu as int));
        assert(chunk.len() <= h.total_len);
        let i = find_free(slots)->Some_0;
        lemma_find_free_props(slots);
        assert(step == (slots.update(i, Some(opened_state(h, chunk))),
            Ok::<Option<MsgView>, ()>(None)));
        let st1 = opened_state(h, chunk);
        assert(st1 =~~= mid_state(setup, payload, mtu, 1)) by {
            assert((0int + 1) % (SEQ_MOD as int) == 1int % (SEQ_MOD as int));
            assert(st1.data =~= payload.take((1 * mtu) as int));
        }
        let slots2 = slots.update(i, Some(st1));
        assert(find_slot(slots2, setup.src, setup.tag, setup.tag_owned) == Some(i)) by {
            lemma_find_slot_props(slots, setup.src, setup.tag, setup.tag_owned);
            crate::reasm::lemma_find_slot_first(slots2, setup.src, setup.tag,
                setup.tag_owned, i);
        }
        lemma_feed_from(setup, payload, mtu, slots2, i, 1);
        assert(pkts.drop_first() =~= pkts.skip(1));
        assert(feed(slots2, pkts.drop_first()) == feed(slots2, pkts.skip(1)));
        assert(slots2.update(i, None) =~= slots);
    }
    assert(feed(slots, pkts).0 =~~= slots);
    assert(feed(slots, pkts).1 =~~= seq![train_message(setup, payload)]);
}

/// Law: a corrupted sequence number is a framing error.  A continuation
/// fragment whose sequence number is not the one the open message expects
/// drops that message and reports the error; nothing is delivered.
pub proof fn lemma_corrupt_seq_rejected(slots: Seq<Option<ReasmView>>,
    h: crate::wire::Header, chunk: Seq<u8>, i: int)
    requires
        !h.som,
        find_slot(slots, h.src, h.tag, h.tag_owned) == Some(i),
        0 <= i < slots.len(),
        slots[i] is Some,
        h.seq != slots[i]->Some_0.next_seq,
    ensures
        absorb_spec(slots, h, chunk) == (slots.update(i, None), Err::<Option<MsgView>, ()>(())),
{
}


/// Feeds a train of raw packets through a router, in order, keeping only
/// the state; framing errors change state exactly as `inbound_spec` says.
pub open spec fn inbound_all(rv: RouterView, pkts: Seq<Seq<u8>>) -> RouterView
    decreases pkts.len(),
{
    if pkts.len() == 0 {
        rv
    } else {
        inbound_all(inbound_spec(rv, pkts[0]).0, pkts.drop_first())
    }
}

/// Routes a list of completed messages, in order.
pub open spec fn route_all(rv: RouterView, msgs: Seq<MsgView>) -> RouterView
    decreases msgs.len(),
{
    if msgs.len() == 0 {
        rv
    } else {
        route_all(route_spec(rv, msgs[0]), msgs.drop_first())
    }
}

/// Routing reads and writes only the channel tables: the reassembler rides
/// through unchanged, whatever it holds.
proof fn lemma_route_frame(rv: RouterView, x: Seq<Option<ReasmView>>, m: MsgView)
    ensures
        route_spec(RouterView { reasm: x, ..rv }, m)
            == (RouterView { reasm: x, ..route_spec(rv, m) }),
{
}

/// Routing a message list likewise leaves the reassembler alone.
proof fn lemma_route_all_frame(rv: RouterView, x: Seq<Option<ReasmView>>, msgs: Seq<MsgView>)
    ensures
        route_all(RouterView { reasm: x, ..rv }, msgs)
            == (RouterView { reasm: x, ..route_all(rv, msgs) }),
    decreases msgs.len(),
{
    if msgs.len() > 0 {
        lemma_route_frame(rv, x, msgs[0]);
        lemma_route_all_frame(route_spec(rv, msgs[0]), x, msgs.drop_first());
    }
}

/// Feeding packets addressed to the router decomposes: the reassembler
/// evolves as `feed` says, and the completed messages are routed in order.
proof fn lemma_inbound_decomposes(rv: RouterView, pkts: Seq<Seq<u8>>)
    requires
        forall|i: int| 0 <= i < pkts.len()
            ==> ((#[trigger] spec_decode(pkts[i])) matches Some(d) && d.0.dest == rv.eid),
    ensures
        ({
            let (slots2, msgs) = feed(rv.reasm, pkts);
            inbound_all(rv, pkts) == (RouterView {
                reasm: slots2,
                reqs: route_all(rv, msgs).reqs,
                listeners: route_all(rv, msgs).listeners,
                ..rv
            })
        }),
    decreases pkts.len(),
{
    if pkts.len() == 0 {
        assert(feed(rv.reasm, pkts).0 == rv.reasm);
        assert(route_all(rv, Seq::<MsgView>::empty()).reqs == rv.reqs);
    } else {
        let p = pkts[0];
        assert((spec_decode(p) matches Some(d) && d.0.dest == rv.eid));
        let (h, chunk) = spec_decode(p)->Some_0;
        let (slots1, res) = absorb_spec(rv.reasm, h, chunk);
        let rv1 = inbound_spec(rv, p).0;
        let rest = pkts.drop_first();
        assert forall|i: int| 0 <= i < rest.len()
            implies ((#[trigger] spec_decode(rest[i])) matches Some(d)
                && d.0.dest == rv1.eid) by {
            assert(rest[i] == pkts[i + 1]);
        }
        lemma_inbound_decomposes(rv1, rest);
        match res {
            Err(()) => {
                assert(rv1 == (RouterView { reasm: slots1, ..rv }));
                assert(feed(rv.reasm, pkts).0 == feed(slots1, rest).0);
                assert(feed(rv.reasm, pkts).1 == feed(slots1, rest).1);
                lemma_route_all_frame(rv, slots1, feed(slots1, rest).1);
            }
            Ok(None) => {
                assert(rv1 == (RouterView { reasm: slots1, ..rv }));
                assert(feed(rv.reasm, pkts).0 == feed(slots1, rest).0);
                assert(feed(rv.reasm, pkts).1 == feed(slots1, rest).1);
                lemma_route_all_frame(rv, slots1, feed(slots1, rest).1);
            }
            Ok(Some(m)) => {
                assert(rv1 == route_spec(RouterView { reasm: slots1, ..rv }, m));
                lemma_route_frame(rv, slots1, m);
                assert(rv1 == (RouterView { reasm: slots1, ..route_spec(rv, m) }));
                assert(feed(rv.reasm, pkts).0 == feed(slots1, rest).0);
                assert(feed(rv.reasm, pkts).1 =~= seq![m] + feed(slots1, rest).1);
                assert(route_all(rv, seq![m] + feed(slots1, rest).1)
                    == route_all(route_spec(rv, m), feed(slots1, rest).1)) by {
                    let all = seq![m] + feed(slots1, rest).1;
                    assert(all[0] == m);
                    assert(all.drop_first() =~= feed(slots1, rest).1);
                }
                // route and reassembly act on disjoint parts of the router
                assert(route_spec(rv, m).reasm == rv.reasm);
                assert(route_spec(rv, m).eid == rv.eid);
                lemma_route_all_frame(route_spec(rv, m), slots1, feed(slots1, rest).1);
            }
        }
    }
}


/// Law: one message, end to end through the router.  Feeding the whole
/// packet train of a message to a router that is its destination — with no
/// open reassembly under the train's key, and room to reassemble — changes
/// the router exactly as routing that one completed message does: the
/// reassembler comes back to its starting state and the message lands in
/// the inbox `route_spec` names.
pub proof fn lemma_train_routes(setup: FragSetup, payload: Seq<u8>, mtu: nat, rv: RouterView)
    requires
        mtu >= 1,
        setup.tag < TAG_MOD,
        payload.len() <= u64::MAX,
        rv.eid == setup.dest,
        rv.reasm.len() == MAX_REASSEMBLY,
        find_slot(rv.reasm, setup.src, setup.tag, setup.tag_owned) is None,
        chunk_count(payload, mtu) > 1 ==> find_free(rv.reasm) is Some,
    ensures
        inbound_all(rv, spec_packets(setup, payload, mtu))
            == route_spec(rv, train_message(setup, payload)),
{
    let pkts = spec_packets(setup, payload, mtu);
    let m = train_message(setup, payload);
    lemma_fragment_reassemble(setup, payload, mtu, rv.reasm);
    assert forall|i: int| 0 <= i < pkts.len()
        implies ((#[trigger] spec_decode(pkts[i])) matches Some(d) && d.0.dest == rv.eid) by {
        let h = spec_header_at(setup, payload, mtu, i);
        let chunk = spec_chunks(payload, mtu)[i];
        lemma_encode_decode(h, chunk);
        assert(pkts[i] == spec_packet_at(setup, payload, mtu, i));
    }
    lemma_inbound_decomposes(rv, pkts);
    assert(feed(rv.reasm, pkts) == (rv.reasm, seq![m]));
    assert(route_all(rv, seq![m]) == route_spec(rv, m)) by {
        assert(seq![m][0] == m);
        assert(seq![m].drop_first() =~= Seq::<MsgView>::empty());
        assert(route_all(route_spec(rv, m), Seq::<MsgView>::empty()) == route_spec(rv, m));
    }
    assert(route_spec(rv, m).reasm == rv.reasm);
    assert(inbound_all(rv, pkts) == route_spec(rv, m));
}

/// Law: the response leg of an exchange.  The peer's response train —
/// unowned tag, addressed to this node — lands whole in the inbox of the
/// request channel whose in-flight exchange it answers, and a receive call
/// on that channel then yields exactly the peer's payload with the
/// exchange's tag.
pub proof fn lemma_response_reaches_requester(setup: FragSetup, payload: Seq<u8>, mtu: nat,
    rv: RouterView, i: int)
    requires
        mtu >= 1,
        setup.tag < TAG_MOD,
        payload.len() <= u64::MAX,
        rv_wf(rv),
        rv.eid == setup.dest,
        rv.reasm.len() == MAX_REASSEMBLY,
        find_slot(rv.reasm, setup.src, setup.tag, setup.tag_owned) is None,
        chunk_count(payload, mtu) > 1 ==> find_free(rv.reasm) is Some,
        !setup.tag_owned,
        0 <= i < rv.reqs.len(),
        rv.reqs[i] matches Some(rc) && rc.remote == setup.src
            && rc.sent_tag == Some(setup.tag),
        forall|j: int| 0 <= j < i ==> !((#[trigger] rv.reqs[j]) matches Some(rc)
            && rc.remote == setup.src && rc.sent_tag == Some(setup.tag)),
    ensures
        ({
            let rv2 = inbound_all(rv, spec_packets(setup, payload, mtu));
            let m = train_message(setup, payload);
            &&& rv2.reqs[i]->Some_0.inbox == rv.reqs[i]->Some_0.inbox.push(m)
            &&& rv.reqs[i]->Some_0.inbox.len() == 0
                ==> recv_spec(rv2, i as u32).1 == Some(m)
        }),
{
    let m = train_message(setup, payload);
    lemma_train_routes(setup, payload, mtu, rv);
    let p = |o: Option<ReqView>| o matches Some(rc)
        && rc.remote == m.source && rc.sent_tag == Some(m.tag);
    assert(p(rv.reqs[i]));
    lemma_find_opt_first(rv.reqs, p, i);
    let rv2 = route_spec(rv, m);
    assert(rv2.reqs[i]->Some_0.inbox == rv.reqs[i]->Some_0.inbox.push(m));
    if rv.reqs[i]->Some_0.inbox.len() == 0 {
        assert(is_req_handle(i as u32));
        assert(rv2.reqs[i as u32 as int]->Some_0.inbox[0] == m);
    }
}


/// Law: the request leg of an exchange.  A peer's request train — owned
/// tag, addressed to this node — lands whole in the inbox of the listener
/// registered for its message type, and a receive call on that listener
/// then yields exactly the peer's payload, source and tag.
pub proof fn lemma_request_reaches_listener(setup: FragSetup, payload: Seq<u8>, mtu: nat,
    rv: RouterView, i: int)
    requires
        mtu >= 1,
        setup.tag < TAG_MOD,
        payload.len() <= u64::MAX,
        rv_wf(rv),
        rv.eid == setup.dest,
        rv.reasm.len() == MAX_REASSEMBLY,
        find_slot(rv.reasm, setup.src, setup.tag, setup.tag_owned) is None,
        chunk_count(payload, mtu) > 1 ==> find_free(rv.reasm) is Some,
        setup.tag_owned,
        0 <= i < rv.listeners.len(),
        rv.listeners[i] matches Some(l) && l.msg_type == setup.msg_type,
        forall|j: int| 0 <= j < i ==> !((#[trigger] rv.listeners[j]) matches Some(l)
            && l.msg_type == setup.msg_type),
    ensures
        ({
            let rv2 = inbound_all(rv, spec_packets(setup, payload, mtu));
            let m = train_message(setup, payload);
            &&& rv2.listeners[i]->Some_0.inbox == rv.listeners[i]->Some_0.inbox.push(m)
            &&& rv.listeners[i]->Some_0.inbox.len() == 0
                ==> recv_spec(rv2, (i + MAX_REQUESTS) as u32).1 == Some(m)
        }),
{
    let m = train_message(setup, payload);
    lemma_train_routes(setup, payload, mtu, rv);
    let p = |o: Option<ListView>| o matches Some(l) && l.msg_type == m.msg_type;
    assert(p(rv.listeners[i]));
    lemma_find_opt_first(rv.listeners, p, i);
    let rv2 = route_spec(rv, m);
    assert(rv2.listeners[i]->Some_0.inbox == rv.listeners[i]->Some_0.inbox.push(m));
    if rv.listeners[i]->Some_0.inbox.len() == 0 {
        let h = (i + MAX_REQUESTS) as u32;
        assert(is_listener_handle(h));
        assert(listener_index(h) == i);
        assert(rv2.listeners[i]->Some_0.inbox[0] == m);
    }
}

} // verus!
