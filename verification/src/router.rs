//! The router: the centre of the MCTP stack.
//!
//! A `Router` owns the local endpoint ID, the request-channel and listener
//! tables, the tag allocator, the reassembler, and the transport sender.
//! Outbound messages are fragmented and handed to the sender packet by
//! packet; inbound packets feed the reassembler, and completed messages are
//! routed into the inbox of the channel they answer or address.

use vstd::prelude::*;
use crate::proto::{Eid, Tag, Error, GenericHandle, eid_valid};
use crate::wire::{HEADER_LEN, TAG_MOD, spec_decode, decode_packet};
use crate::frag::{Fragmenter, FragSetup, SendOutput, spec_packets, chunk_count, lemma_chunk_count_le, lemma_chunk_count_at_least_one};
use crate::reasm::{Reassembler, ReasmView, MctpMessage, MsgView, absorb_spec};
use crate::MAX_MESSAGE;

verus! {

/// Capacity of the request-channel table.
pub const MAX_REQUESTS: usize = 8;

/// Capacity of the listener table.
pub const MAX_LISTENERS: usize = 8;

/// Returned by [`Router::update`] when no router-internal action is due.
pub const NO_DEADLINE: u64 = u64::MAX;

/// A transport send failure.
#[derive(Clone, Copy, Debug, PartialEq, Eq, Structural)]
pub struct TransportError;

/// The transport a router emits packets through.
///
/// `mtu_spec` is the number of payload bytes one packet may carry; it must
/// not change while packets are sent.  `sent` is the history of accepted
/// packets, which lets callers state exactly what reached the wire.
pub trait Sender: Sized {
    /// The advertised MTU, in specifications.
    spec fn mtu_spec(&self) -> usize;

    /// The packets accepted so far, in order.
    spec fn sent(&self) -> Seq<Seq<u8>>;

    /// Whether this transport accepts every packet.  Where it holds,
    /// sending is owed to succeed; a fallible transport leaves it false.
    spec fn never_fails(&self) -> bool;

    /// The number of payload bytes one packet may carry.
    fn mtu(&self) -> (r: usize)
        ensures
            r == self.mtu_spec(),
    ;

    /// Emits one packet, completing or failing before it returns.
    fn send_packet(&mut self, pkt: &Vec<u8>) -> (r: Result<(), TransportError>)
        ensures
            final(self).mtu_spec() == old(self).mtu_spec(),
            final(self).never_fails() == old(self).never_fails(),
            old(self).never_fails() ==> r is Ok,
            r is Ok ==> final(self).sent() == old(self).sent().push(pkt@),
            r is Err ==> final(self).sent() == old(self).sent(),
    ;
}

/// A sender that records every packet in memory: the transport used by the
/// tests, and by event loops that drain packets themselves.
pub struct MemSender {
    /// Payload bytes per packet.
    pub mtu: usize,
    /// Every packet accepted, in order.
    pub packets: Vec<Vec<u8>>,
}

impl MemSender {
    /// A recording sender with the given payload MTU.
    pub fn new(mtu: usize) -> (r: MemSender)
        requires
            1 <= mtu,
            mtu + HEADER_LEN <= usize::MAX,
        ensures
            r.mtu_spec() == mtu,
            r.sent() == Seq::<Seq<u8>>::empty(),
    {
        let r = MemSender { mtu, packets: Vec::new() };
        proof {
            assert(r.sent() =~= Seq::<Seq<u8>>::empty());
        }
        r
    }
}

impl Sender for MemSender {
    open spec fn mtu_spec(&self) -> usize {
        self.mtu
    }

    open spec fn sent(&self) -> Seq<Seq<u8>> {
        Seq::new(self.packets@.len(), |i: int| self.packets@[i]@)
    }

    open spec fn never_fails(&self) -> bool {
        true
    }

    fn mtu(&self) -> (r: usize) {
        self.mtu
    }

    fn send_packet(&mut self, pkt: &Vec<u8>) -> (r: Result<(), TransportError>) {
        let copy = vstd::slice::slice_to_vec(pkt.as_slice());
        self.packets.push(copy);
        proof {
            assert(self.sent() =~= old(self).sent().push(pkt@));
        }
        Ok(())
    }
}

/// A sender whose transport always fails: it exercises the error paths.
pub struct FailSender {
    /// Payload bytes per packet.
    pub mtu: usize,
}

impl Sender for FailSender {
    open spec fn mtu_spec(&self) -> usize {
        self.mtu
    }

    open spec fn sent(&self) -> Seq<Seq<u8>> {
        Seq::empty()
    }

    open spec fn never_fails(&self) -> bool {
        false
    }

    fn mtu(&self) -> (r: usize) {
        self.mtu
    }

    fn send_packet(&mut self, pkt: &Vec<u8>) -> (r: Result<(), TransportError>) {
        Err(TransportError)
    }
}

/// One outbound request channel, bound to a remote EID.  While `sent_tag`
/// holds a tag, one exchange is in flight and further sends are refused.
pub struct ReqChannelState {
    /// The remote endpoint this channel speaks to.
    pub remote: u8,
    /// The owned tag of the in-flight request, if one was sent.
    pub sent_tag: Option<u8>,
    /// Responses delivered to this channel, oldest first.
    pub inbox: Vec<MctpMessage>,
}

/// One listener, bound to a message type.
pub struct ListenerState {
    /// The message type this listener accepts.
    pub msg_type: u8,
    /// Requests delivered to this listener, oldest first.
    pub inbox: Vec<MctpMessage>,
}

/// Mathematical image of a request channel.
#[verifier::ext_equal]
pub ghost struct ReqView {
    pub remote: u8,
    pub sent_tag: Option<u8>,
    pub inbox: Seq<MsgView>,
}

/// Mathematical image of a listener.
#[verifier::ext_equal]
pub ghost struct ListView {
    pub msg_type: u8,
    pub inbox: Seq<MsgView>,
}

impl View for ReqChannelState {
    type V = ReqView;

    open spec fn view(&self) -> ReqView {
        ReqView {
            remote: self.remote,
            sent_tag: self.sent_tag,
            inbox: Seq::new(self.inbox@.len(), |i: int| self.inbox@[i]@),
        }
    }
}

impl View for ListenerState {
    type V = ListView;

    open spec fn view(&self) -> ListView {
        ListView {
            msg_type: self.msg_type,
            inbox: Seq::new(self.inbox@.len(), |i: int| self.inbox@[i]@),
        }
    }
}

/// Mathematical image of a whole router.
#[verifier::ext_equal]
pub ghost struct RouterView {
    pub eid: u8,
    pub now: u64,
    pub next_tag: u8,
    pub reqs: Seq<Option<ReqView>>,
    pub listeners: Seq<Option<ListView>>,
    pub reasm: Seq<Option<ReasmView>>,
}

/// The first index of an option table whose entry satisfies `p`.
pub open spec fn find_opt<T>(s: Seq<Option<T>>, p: spec_fn(Option<T>) -> bool) -> Option<int>
    decreases s.len(),
{
    if s.len() == 0 {
        None
    } else if p(s[0]) {
        Some(0)
    } else {
        match find_opt(s.drop_first(), p) {
            Some(i) => Some(i + 1),
            None => None,
        }
    }
}

/// `find_opt` returns exactly the first index satisfying `p`.
pub proof fn lemma_find_opt_props<T>(s: Seq<Option<T>>, p: spec_fn(Option<T>) -> bool)
    ensures
        match find_opt(s, p) {
            Some(i) => 0 <= i < s.len() && p(s[i]) && forall|j: int| 0 <= j < i ==> !p(s[j]),
            None => forall|j: int| 0 <= j < s.len() ==> !p(s[j]),
        },
    decreases s.len(),
{
    if s.len() > 0 {
        let rest = s.drop_first();
        lemma_find_opt_props(rest, p);
        if !p(s[0]) {
            match find_opt(rest, p) {
                Some(i) => {
                    assert(rest[i] == s[i + 1]);
                    assert forall|j: int| 0 <= j < i + 1 implies !p(s[j]) by {
                        if j > 0 {
                            assert(rest[j - 1] == s[j]);
                        }
                    }
                }
                None => {
                    assert forall|j: int| 0 <= j < s.len() implies !p(s[j]) by {
                        if j > 0 {
                            assert(rest[j - 1] == s[j]);
                        }
                    }
                }
            }
        }
    }
}

/// If index `i` satisfies `p` and no earlier index does, `find_opt` names it.
pub proof fn lemma_find_opt_first<T>(s: Seq<Option<T>>, p: spec_fn(Option<T>) -> bool, i: int)
    requires
        0 <= i < s.len(),
        p(s[i]),
        forall|j: int| 0 <= j < i ==> !p(s[j]),
    ensures
        find_opt(s, p) == Some(i),
    decreases s.len(),
{
    if i > 0 {
        let rest = s.drop_first();
        assert forall|j: int| 0 <= j < i - 1 implies !p(rest[j]) by {
            assert(rest[j] == s[j + 1]);
        }
        assert(rest[i - 1] == s[i]);
        lemma_find_opt_first(rest, p, i - 1);
    }
}

/// Whether a handle names a request channel, and which.
pub open spec fn is_req_handle(h: u32) -> bool {
    h < MAX_REQUESTS
}

/// Whether a handle names a listener, and which.
pub open spec fn is_listener_handle(h: u32) -> bool {
    MAX_REQUESTS <= h < MAX_REQUESTS + MAX_LISTENERS
}

/// The listener index a listener handle names.
pub open spec fn listener_index(h: u32) -> int {
    h - MAX_REQUESTS
}

/// Well-formedness of a router view: fixed table sizes, a valid own EID,
/// and bounded tag values.
pub open spec fn rv_wf(rv: RouterView) -> bool {
    &&& rv.reqs.len() == MAX_REQUESTS
    &&& rv.listeners.len() == MAX_LISTENERS
    &&& rv.reasm.len() == crate::reasm::MAX_REASSEMBLY
    &&& eid_valid(rv.eid)
    &&& rv.next_tag < TAG_MOD
    &&& forall|i: int| 0 <= i < rv.reqs.len() && #[trigger] rv.reqs[i] is Some
            && rv.reqs[i]->Some_0.sent_tag is Some
            ==> rv.reqs[i]->Some_0.sent_tag->Some_0 < TAG_MOD
}

/// What `req` does: bind the first free request slot to the remote EID, or
/// fail with `NoSpace` leaving everything unchanged.
pub open spec fn req_spec(rv: RouterView, remote: u8) -> (RouterView, Result<u32, Error>) {
    match find_opt(rv.reqs, |o: Option<ReqView>| o is None) {
        Some(i) => (
            RouterView {
                reqs: rv.reqs.update(i, Some(ReqView { remote, sent_tag: None, inbox: Seq::empty() })),
                ..rv
            },
            Ok(i as u32),
        ),
        None => (rv, Err(Error::NoSpace)),
    }
}

/// What `listener` does: refuse a second listener for a type with
/// `AddrInUse`, bind the first free slot otherwise, or fail with `NoSpace`
/// when the table is full.
pub open spec fn listener_spec(rv: RouterView, msg_type: u8) -> (RouterView, Result<u32, Error>) {
    if find_opt(rv.listeners, |o: Option<ListView>| o matches Some(l) && l.msg_type == msg_type) is Some {
        (rv, Err(Error::AddrInUse))
    } else {
        match find_opt(rv.listeners, |o: Option<ListView>| o is None) {
            Some(i) => (
                RouterView {
                    listeners: rv.listeners.update(i, Some(ListView { msg_type, inbox: Seq::empty() })),
                    ..rv
                },
                Ok((i + MAX_REQUESTS) as u32),
            ),
            None => (rv, Err(Error::NoSpace)),
        }
    }
}

/// What `release` does: free the slot a handle names, or fail with
/// `BadArgument` for a handle that names nothing.
pub open spec fn release_spec(rv: RouterView, h: u32) -> (RouterView, Result<(), Error>) {
    if is_req_handle(h) && rv.reqs[h as int] is Some {
        (RouterView { reqs: rv.reqs.update(h as int, None), ..rv }, Ok(()))
    } else if is_listener_handle(h) && rv.listeners[listener_index(h)] is Some {
        (RouterView { listeners: rv.listeners.update(listener_index(h), None), ..rv }, Ok(()))
    } else {
        (rv, Err(Error::BadArgument))
    }
}

/// What `recv` does: pop the oldest message of the handle's inbox.  Popping
/// a request channel's response completes its exchange, so the sent tag is
/// released.  A handle with nothing pending yields `None`.
pub open spec fn recv_spec(rv: RouterView, h: u32) -> (RouterView, Option<MsgView>) {
    if is_req_handle(h) && rv.reqs[h as int] is Some && rv.reqs[h as int]->Some_0.inbox.len() > 0 {
        let rc = rv.reqs[h as int]->Some_0;
        (
            RouterView {
                reqs: rv.reqs.update(h as int, Some(ReqView {
                    sent_tag: None,
                    inbox: rc.inbox.drop_first(),
                    ..rc
                })),
                ..rv
            },
            Some(rc.inbox[0]),
        )
    } else if is_listener_handle(h) && rv.listeners[listener_index(h)] is Some
        && rv.listeners[listener_index(h)]->Some_0.inbox.len() > 0 {
        let l = rv.listeners[listener_index(h)]->Some_0;
        (
            RouterView {
                listeners: rv.listeners.update(listener_index(h), Some(ListView {
                    inbox: l.inbox.drop_first(),
                    ..l
                })),
                ..rv
            },
            Some(l.inbox[0]),
        )
    } else {
        (rv, None)
    }
}

/// Where a completed inbound message lands: a message whose sender owns the
/// tag is a request and goes to the listener for its type; one with an
/// echoed tag is a response and goes to the request channel whose in-flight
/// exchange it answers.  A message that matches nothing is dropped.
pub open spec fn route_spec(rv: RouterView, m: MsgView) -> RouterView {
    if m.tag_owned {
        match find_opt(rv.listeners, |o: Option<ListView>| o matches Some(l) && l.msg_type == m.msg_type) {
            Some(i) => RouterView {
                listeners: rv.listeners.update(i, Some(ListView {
                    inbox: rv.listeners[i]->Some_0.inbox.push(m),
                    ..rv.listeners[i]->Some_0
                })),
                ..rv
            },
            None => rv,
        }
    } else {
        match find_opt(rv.reqs, |o: Option<ReqView>| o matches Some(r)
            && r.remote == m.source && r.sent_tag == Some(m.tag)) {
            Some(i) => RouterView {
                reqs: rv.reqs.update(i, Some(ReqView {
                    inbox: rv.reqs[i]->Some_0.inbox.push(m),
                    ..rv.reqs[i]->Some_0
                })),
                ..rv
            },
            None => rv,
        }
    }
}

/// What feeding one raw packet does: undecodable bytes are a framing error;
/// a packet for another node is ignored; otherwise the reassembler absorbs
/// it and a completed message is routed at once.
pub open spec fn inbound_spec(rv: RouterView, pkt: Seq<u8>) -> (RouterView, Result<(), Error>) {
    match spec_decode(pkt) {
        None => (rv, Err(Error::RxFailure)),
        Some((h, chunk)) => {
            if h.dest != rv.eid {
                (rv, Ok(()))
            } else {
                let (slots2, res) = absorb_spec(rv.reasm, h, chunk);
                let rv2 = RouterView { reasm: slots2, ..rv };
                match res {
                    Err(()) => (rv2, Err(Error::RxFailure)),
                    Ok(None) => (rv2, Ok(())),
                    Ok(Some(m)) => (route_spec(rv2, m), Ok(())),
                }
            }
        },
    }
}

/// Whether an owned tag is in flight towards `remote`.
pub open spec fn tag_in_use(reqs: Seq<Option<ReqView>>, remote: u8, t: u8) -> bool {
    exists|i: int| 0 <= i < reqs.len() && reqs[i] is Some
        && reqs[i]->Some_0.remote == remote && reqs[i]->Some_0.sent_tag == Some(t)
}

/// The tag allocator's search, starting `k` candidates past `next`.
pub open spec fn alloc_try(reqs: Seq<Option<ReqView>>, remote: u8, next: u8, k: nat) -> Option<u8>
    decreases TAG_MOD - k,
    when k <= TAG_MOD
{
    if k >= TAG_MOD {
        None
    } else {
        let cand = (((next + k) % (TAG_MOD as int))) as u8;
        if !tag_in_use(reqs, remote, cand) {
            Some(cand)
        } else {
            alloc_try(reqs, remote, next, k + 1)
        }
    }
}

/// The tag the allocator hands out: the first value at or after `next`,
/// modulo the tag space, that is not in flight towards `remote`.
pub open spec fn alloc_tag_spec(reqs: Seq<Option<ReqView>>, remote: u8, next: u8) -> Option<u8> {
    alloc_try(reqs, remote, next, 0)
}

/// The MCTP router.
pub struct Router<S: Sender> {
    /// The node's own endpoint ID.
    pub local_eid: u8,
    /// The time of the last `update`, in milliseconds.
    pub now: u64,
    /// Where the tag allocator's search starts next.
    pub next_tag: u8,
    /// Request-channel table; the length stays `MAX_REQUESTS`.
    pub reqs: Vec<Option<ReqChannelState>>,
    /// Listener table; the length stays `MAX_LISTENERS`.
    pub listeners: Vec<Option<ListenerState>>,
    /// Inbound reassembly state.
    pub reasm: Reassembler,
    /// The transport this router emits packets through.
    pub sender: S,
}

impl<S: Sender> View for Router<S> {
    type V = RouterView;

    open spec fn view(&self) -> RouterView {
        RouterView {
            eid: self.local_eid,
            now: self.now,
            next_tag: self.next_tag,
            reqs: Seq::new(self.reqs@.len(), |i: int| match self.reqs@[i] {
                Some(r) => Some(r@),
                None => None,
            }),
            listeners: Seq::new(self.listeners@.len(), |i: int| match self.listeners@[i] {
                Some(l) => Some(l@),
                None => None,
            }),
            reasm: self.reasm@,
        }
    }
}

impl<S: Sender> Router<S> {
    /// The router's invariant: a well-formed view and a usable transport.
    pub open spec fn wf(self) -> bool {
        &&& rv_wf(self@)
        &&& 1 <= self.sender.mtu_spec()
        &&& self.sender.mtu_spec() + HEADER_LEN <= usize::MAX
    }

    /// A new router with the given own EID, time, and transport; all tables
    /// start empty.
    pub fn new(own_eid: Eid, now_millis: u64, outbound: S) -> (r: Router<S>)
        requires
            eid_valid(own_eid.0),
            1 <= outbound.mtu_spec(),
            outbound.mtu_spec() + HEADER_LEN <= usize::MAX,
        ensures
            r.wf(),
            r@.eid == own_eid.0,
            r@.now == now_millis,
            r@.next_tag == 0,
            forall|i: int| 0 <= i < r@.reqs.len() ==> r@.reqs[i] is None,
            forall|i: int| 0 <= i < r@.listeners.len() ==> r@.listeners[i] is None,
            forall|i: int| 0 <= i < r@.reasm.len() ==> r@.reasm[i] is None,
            r.sender == outbound,
    {
        let mut reqs: Vec<Option<ReqChannelState>> = Vec::new();
        let mut i: usize = 0;
        while i < MAX_REQUESTS
            invariant
                i <= MAX_REQUESTS,
                reqs@.len() == i,
                forall|j: int| 0 <= j < i ==> reqs@[j] is None,
            decreases MAX_REQUESTS - i,
        {
            reqs.push(None);
            i += 1;
        }
        let mut listeners: Vec<Option<ListenerState>> = Vec::new();
        let mut k: usize = 0;
        while k < MAX_LISTENERS
            invariant
                k <= MAX_LISTENERS,
                listeners@.len() == k,
                forall|j: int| 0 <= j < k ==> listeners@[j] is None,
            decreases MAX_LISTENERS - k,
        {
            listeners.push(None);
            k += 1;
        }
        Router {
            local_eid: own_eid.0,
            now: now_millis,
            next_tag: 0,
            reqs,
            listeners,
            reasm: Reassembler::new(),
            sender: outbound,
        }
    }

    /// The node's own endpoint ID.
    pub fn get_eid(&self) -> (r: Eid)
        ensures
            r.0 == self@.eid,
    {
        Eid(self.local_eid)
    }

    /// Replaces the node's own endpoint ID; the null and broadcast
    /// addresses are refused with `BadArgument`.
    pub fn set_eid(&mut self, eid: Eid) -> (r: Result<(), Error>)
        requires
            old(self).wf(),
        ensures
            final(self).wf(),
            eid_valid(eid.0) ==> r == Ok::<(), Error>(())
                && final(self)@ == (RouterView { eid: eid.0, ..old(self)@ }),
            !eid_valid(eid.0) ==> r == Err::<(), Error>(Error::BadArgument)
                && final(self)@ == old(self)@,
            final(self).sender == old(self).sender,
    {
        if eid.is_assignable() {
            self.local_eid = eid.0;
            Ok(())
        } else {
            Err(Error::BadArgument)
        }
    }

    /// Allocates a request channel bound to `remote_eid`; see [`req_spec`].
    #[verifier::loop_isolation(false)]
    pub fn req(&mut self, remote_eid: Eid) -> (r: Result<GenericHandle, Error>)
        requires
            old(self).wf(),
        ensures
            final(self).wf(),
            final(self).sender == old(self).sender,
            ({
                let (rv2, rr) = req_spec(old(self)@, remote_eid.0);
                &&& final(self)@ =~~= rv2
                &&& match (r, rr) {
                    (Ok(h), Ok(h2)) => h.0 == h2,
                    (Err(e), Err(e2)) => e == e2,
                    _ => false,
                }
            }),
    {
        proof {
            lemma_find_opt_props(self@.reqs, |o: Option<ReqView>| o is None);
        }
        let mut i: usize = 0;
        while i < MAX_REQUESTS
            invariant
                i <= MAX_REQUESTS,
                *self == *old(self),
                self.reqs@.len() == MAX_REQUESTS,
                forall|j: int| 0 <= j < i ==> self@.reqs[j] is Some,
            decreases MAX_REQUESTS - i,
        {
            if self.reqs[i].is_none() {
                proof {
                    lemma_find_opt_first(self@.reqs, |o: Option<ReqView>| o is None, i as int);
                }
                self.reqs.set(i, Some(ReqChannelState {
                    remote: remote_eid.0,
                    sent_tag: None,
                    inbox: Vec::new(),
                }));
                proof {
                    assert forall|j: int|
                        0 <= j < self@.reqs.len() && #[trigger] self@.reqs[j] is Some
                            && self@.reqs[j]->Some_0.sent_tag is Some
                        implies self@.reqs[j]->Some_0.sent_tag->Some_0 < TAG_MOD by {
                        if j != i as int {
                            assert(self@.reqs[j] == old(self)@.reqs[j]);
                        }
                    }
                }
                return Ok(GenericHandle(i as u32));
            }
            i += 1;
        }
        Err(Error::NoSpace)
    }

    /// Registers a listener for a message type; see [`listener_spec`].
    #[verifier::loop_isolation(false)]
    pub fn listener(&mut self, msg_type: u8) -> (r: Result<GenericHandle, Error>)
        requires
            old(self).wf(),
        ensures
            final(self).wf(),
            final(self).sender == old(self).sender,
            ({
                let (rv2, rr) = listener_spec(old(self)@, msg_type);
                &&& final(self)@ =~~= rv2
                &&& match (r, rr) {
                    (Ok(h), Ok(h2)) => h.0 == h2,
                    (Err(e), Err(e2)) => e == e2,
                    _ => false,
                }
            }),
    {
        proof {
            lemma_find_opt_props(self@.listeners,
                |o: Option<ListView>| o matches Some(l) && l.msg_type == msg_type);
            lemma_find_opt_props(self@.listeners, |o: Option<ListView>| o is None);
        }
        let mut i: usize = 0;
        while i < MAX_LISTENERS
            invariant
                i <= MAX_LISTENERS,
                *self == *old(self),
                self.listeners@.len() == MAX_LISTENERS,
                forall|j: int| 0 <= j < i ==>
                    !(#[trigger] self@.listeners[j] matches Some(l) && l.msg_type == msg_type),
            decreases MAX_LISTENERS - i,
        {
            match &self.listeners[i] {
                Some(l) => {
                    if l.msg_type == msg_type {
                        proof {
                            lemma_find_opt_first(self@.listeners,
                                |o: Option<ListView>| o matches Some(l) && l.msg_type == msg_type,
                                i as int);
                        }
                        return Err(Error::AddrInUse);
                    }
                }
                None => {}
            }
            i += 1;
        }
        let mut k: usize = 0;
        while k < MAX_LISTENERS
            invariant
                k <= MAX_LISTENERS,
                *self == *old(self),
                self.listeners@.len() == MAX_LISTENERS,
                forall|j: int| 0 <= j < MAX_LISTENERS ==>
                    !(#[trigger] self@.listeners[j] matches Some(l) && l.msg_type == msg_type),
                forall|j: int| 0 <= j < k ==> self@.listeners[j] is Some,
            decreases MAX_LISTENERS - k,
        {
            if self.listeners[k].is_none() {
                proof {
                    lemma_find_opt_first(self@.listeners, |o: Option<ListView>| o is None, k as int);
                }
                self.listeners.set(k, Some(ListenerState {
                    msg_type,
                    inbox: Vec::new(),
                }));
                return Ok(GenericHandle((MAX_REQUESTS + k) as u32));
            }
            k += 1;
        }
        Err(Error::NoSpace)
    }

    /// Frees the channel or listener a handle names; see [`release_spec`].
    pub fn release(&mut self, handle: GenericHandle) -> (r: Result<(), Error>)
        requires
            old(self).wf(),
        ensures
            final(self).wf(),
            final(self).sender == old(self).sender,
            ({
                let (rv2, rr) = release_spec(old(self)@, handle.0);
                final(self)@ =~~= rv2 && r == rr
            }),
    {
        let h = handle.0;
        if h < MAX_REQUESTS as u32 {
            let i = h as usize;
            if self.reqs[i].is_some() {
                self.reqs.set(i, None);
                proof {
                    assert forall|j: int|
                        0 <= j < self@.reqs.len() && #[trigger] self@.reqs[j] is Some
                            && self@.reqs[j]->Some_0.sent_tag is Some
                        implies self@.reqs[j]->Some_0.sent_tag->Some_0 < TAG_MOD by {
                        if j != i as int {
                            assert(self@.reqs[j] == old(self)@.reqs[j]);
                        }
                    }
                }
                return Ok(());
            }
        } else if h < (MAX_REQUESTS + MAX_LISTENERS) as u32 {
            let i = h as usize - MAX_REQUESTS;
            if self.listeners[i].is_some() {
                self.listeners.set(i, None);
                return Ok(());
            }
        }
        Err(Error::BadArgument)
    }

    /// Polls the handle's inbox without blocking; see [`recv_spec`].
    pub fn recv(&mut self, cookie: GenericHandle) -> (r: Option<MctpMessage>)
        requires
            old(self).wf(),
        ensures
            final(self).wf(),
            final(self).sender == old(self).sender,
            ({
                let (rv2, rr) = recv_spec(old(self)@, cookie.0);
                &&& final(self)@ =~~= rv2
                &&& match (r, rr) {
                    (Some(m), Some(mv)) => m@ == mv,
                    (None, None) => true,
                    _ => false,
                }
            }),
    {
        let h = cookie.0;
        if h < MAX_REQUESTS as u32 {
            let i = h as usize;
            if self.reqs[i].is_some() {
                let mut slot = opt_take(&mut self.reqs, i);
                let mut rc = slot.unwrap();
                if rc.inbox.len() > 0 {
                    let msg = rc.inbox.remove(0);
                    rc.sent_tag = None;
                    self.reqs.set(i, Some(rc));
                    proof {
                        assert(self@.reqs =~~= recv_spec(old(self)@, cookie.0).0.reqs);
                    }
                    return Some(msg);
                }
                self.reqs.set(i, Some(rc));
                proof {
                    assert(final(self)@ =~~= old(self)@);
                }
                return None;
            }
        } else if h < (MAX_REQUESTS + MAX_LISTENERS) as u32 {
            let i = h as usize - MAX_REQUESTS;
            if self.listeners[i].is_some() {
                let mut slot = opt_take(&mut self.listeners, i);
                let mut l = slot.unwrap();
                if l.inbox.len() > 0 {
                    let msg = l.inbox.remove(0);
                    self.listeners.set(i, Some(l));
                    proof {
                        assert(self@.listeners =~~= recv_spec(old(self)@, cookie.0).0.listeners);
                    }
                    return Some(msg);
                }
                self.listeners.set(i, Some(l));
                proof {
                    assert(final(self)@ =~~= old(self)@);
                }
                return None;
            }
        }
        None
    }

    /// Feeds one raw inbound packet to the reassembler and routes any
    /// message it completes; see [`inbound_spec`].
    pub fn inbound(&mut self, pkt: &[u8]) -> (r: Result<(), Error>)
        requires
            old(self).wf(),
        ensures
            final(self).wf(),
            final(self).sender == old(self).sender,
            ({
                let (rv2, rr) = inbound_spec(old(self)@, pkt@);
                final(self)@ =~~= rv2 && r == rr
            }),
    {
        let decoded = decode_packet(pkt);
        match decoded {
            None => Err(Error::RxFailure),
            Some((h, chunk)) => {
                if h.dest != self.local_eid {
                    return Ok(());
                }
                let res = self.reasm.absorb(&h, chunk.as_slice());
                match res {
                    Err(()) => Err(Error::RxFailure),
                    Ok(None) => Ok(()),
                    Ok(Some(m)) => {
                        self.route(m);
                        Ok(())
                    }
                }
            }
        }
    }

    /// Delivers one completed inbound message to its channel's inbox.
    #[verifier::loop_isolation(false)]
    fn route(&mut self, m: MctpMessage)
        requires
            old(self).wf(),
        ensures
            final(self).wf(),
            final(self).sender == old(self).sender,
            final(self)@ =~~= route_spec(old(self)@, m@),
    {
        if m.tag_owned {
            let t = m.msg_type;
            proof {
                lemma_find_opt_props(self@.listeners,
                    |o: Option<ListView>| o matches Some(l) && l.msg_type == m@.msg_type);
            }
            let mut i: usize = 0;
            while i < MAX_LISTENERS
                invariant
                    i <= MAX_LISTENERS,
                    *self == *old(self),
                    self.listeners@.len() == MAX_LISTENERS,
                    t == m.msg_type,
                    forall|j: int| 0 <= j < i ==>
                        !(#[trigger] self@.listeners[j] matches Some(l) && l.msg_type == m@.msg_type),
                decreases MAX_LISTENERS - i,
            {
                let hit = match &self.listeners[i] {
                    Some(l) => l.msg_type == t,
                    None => false,
                };
                if hit {
                    proof {
                        lemma_find_opt_first(self@.listeners,
                            |o: Option<ListView>| o matches Some(l) && l.msg_type == m@.msg_type,
                            i as int);
                    }
                    let mut slot = opt_take(&mut self.listeners, i);
                    let mut l = slot.unwrap();
                    l.inbox.push(m);
                    self.listeners.set(i, Some(l));
                    proof {
                        assert(self@.listeners =~~= route_spec(old(self)@, m@).listeners);
                    }
                    return;
                }
                i += 1;
            }
        } else {
            proof {
                lemma_find_opt_props(self@.reqs,
                    |o: Option<ReqView>| o matches Some(r)
                        && r.remote == m@.source && r.sent_tag == Some(m@.tag));
            }
            let src = m.source;
            let tg = m.tag;
            let mut i: usize = 0;
            while i < MAX_REQUESTS
                invariant
                    i <= MAX_REQUESTS,
                    *self == *old(self),
                    self.reqs@.len() == MAX_REQUESTS,
                    src == m.source,
                    tg == m.tag,
                    forall|j: int| 0 <= j < i ==>
                        !(#[trigger] self@.reqs[j] matches Some(r)
                            && r.remote == m@.source && r.sent_tag == Some(m@.tag)),
                decreases MAX_REQUESTS - i,
            {
                let hit = match &self.reqs[i] {
                    Some(r) => r.remote == src && r.sent_tag == Some(tg),
                    None => false,
                };
                if hit {
                    proof {
                        lemma_find_opt_first(self@.reqs,
                            |o: Option<ReqView>| o matches Some(r)
                                && r.remote == m@.source && r.sent_tag == Some(m@.tag),
                            i as int);
                    }
                    let mut slot = opt_take(&mut self.reqs, i);
                    let mut rc = slot.unwrap();
                    rc.inbox.push(m);
                    self.reqs.set(i, Some(rc));
                    proof {
                        assert(self@.reqs =~~= route_spec(old(self)@, m@).reqs);
                    }
                    return;
                }
                i += 1;
            }
        }
        proof {
            assert(final(self)@ =~~= route_spec(old(self)@, m@));
        }
    }

    /// Advances the router's clock.  The router keeps no internal deadline
    /// of its own, so the returned wait is `NO_DEADLINE`; deadline handling
    /// for outstanding receive calls lives in the server layer.
    pub fn update(&mut self, now_millis: u64) -> (r: Result<u64, Error>)
        requires
            old(self).wf(),
        ensures
            final(self).wf(),
            final(self).sender == old(self).sender,
            final(self)@ =~~= (RouterView { now: now_millis, ..old(self)@ }),
            r == Ok::<u64, Error>(NO_DEADLINE),
    {
        self.now = now_millis;
        Ok(NO_DEADLINE)
    }

    /// Whether an owned tag is in flight towards `remote`.
    fn tag_used(&self, remote: u8, t: u8) -> (r: bool)
        ensures
            r == tag_in_use(self@.reqs, remote, t),
    {
        let mut i: usize = 0;
        while i < self.reqs.len()
            invariant
                i <= self.reqs@.len(),
                self@.reqs.len() == self.reqs@.len(),
                forall|j: int| 0 <= j < i ==> !(#[trigger] self@.reqs[j] is Some
                    && self@.reqs[j]->Some_0.remote == remote
                    && self@.reqs[j]->Some_0.sent_tag == Some(t)),
            decreases self.reqs@.len() - i,
        {
            let hit = match &self.reqs[i] {
                Some(r) => r.remote == remote && r.sent_tag == Some(t),
                None => false,
            };
            if hit {
                proof {
                    assert(tag_in_use(self@.reqs, remote, t)) by {
                        assert(self@.reqs[i as int] is Some
                            && self@.reqs[i as int]->Some_0.remote == remote
                            && self@.reqs[i as int]->Some_0.sent_tag == Some(t));
                    }
                }
                return true;
            }
            i += 1;
        }
        proof {
            assert(!tag_in_use(self@.reqs, remote, t));
        }
        false
    }

    /// Allocates the next free owned tag towards `remote`: the allocator
    /// counts upwards modulo the tag space and skips values in flight.
    fn alloc_tag(&self, remote: u8) -> (r: Option<u8>)
        requires
            self.wf(),
        ensures
            r == alloc_tag_spec(self@.reqs, remote, self@.next_tag),
            r matches Some(t) ==> t < TAG_MOD && !tag_in_use(self@.reqs, remote, t),
    {
        let mut k: u8 = 0;
        while k < TAG_MOD
            invariant
                k <= TAG_MOD,
                self.wf(),
                alloc_try(self@.reqs, remote, self@.next_tag, 0)
                    == alloc_try(self@.reqs, remote, self@.next_tag, k as nat),
            decreases TAG_MOD - k,
        {
            let cand = (self.next_tag + k) % TAG_MOD;
            if !self.tag_used(remote, cand) {
                proof {
                    assert(alloc_try(self@.reqs, remote, self@.next_tag, k as nat)
                        == Some(cand));
                }
                return Some(cand);
            }
            k += 1;
        }
        None
    }

    /// Sends one message on a channel; a request allocates a fresh owned
    /// tag, a response names its listener handle, destination and echoed
    /// tag.  The exact outcome of every input is stated in the `ensures`.
    #[verifier::loop_isolation(false)]
    pub fn send(&mut self, eid: Option<u8>, msg_type: u8, tag: Option<u8>, ic: bool,
        cookie: GenericHandle, payload: &[u8]) -> (r: Result<Tag, Error>)
        requires
            old(self).wf(),
        ensures
            final(self).wf(),
            final(self).sender.mtu_spec() == old(self).sender.mtu_spec(),
            final(self).sender.never_fails() == old(self).sender.never_fails(),
            payload@.len() > MAX_MESSAGE ==> r == Err::<Tag, Error>(Error::NoSpace)
                && final(self)@ == old(self)@ && final(self).sender == old(self).sender,
            payload@.len() <= MAX_MESSAGE && is_req_handle(cookie.0) ==> ({
                let rv = old(self)@;
                let i = cookie.0 as int;
                match rv.reqs[i] {
                    None => r == Err::<Tag, Error>(Error::BadArgument)
                        && final(self)@ == old(self)@ && final(self).sender == old(self).sender,
                    Some(rc) => {
                        if tag is Some || (eid is Some && eid->Some_0 != rc.remote)
                            || rc.sent_tag is Some {
                            r == Err::<Tag, Error>(Error::BadArgument)
                                && final(self)@ == old(self)@
                                && final(self).sender == old(self).sender
                        } else {
                            match alloc_tag_spec(rv.reqs, rc.remote, rv.next_tag) {
                                None => r == Err::<Tag, Error>(Error::NoSpace)
                                    && final(self)@ == old(self)@
                                    && final(self).sender == old(self).sender,
                                Some(t) => {
                                    let pkts = spec_packets(
                                        FragSetup {
                                            dest: rc.remote,
                                            src: rv.eid,
                                            tag: t,
                                            tag_owned: true,
                                            ic,
                                            msg_type,
                                        },
                                        payload@,
                                        old(self).sender.mtu_spec() as nat,
                                    );
                                    &&& old(self).sender.never_fails() ==> r is Ok
                                    &&& match r {
                                        Ok(tg) => tg == Tag::Owned(t)
                                            && final(self).sender.sent()
                                                == old(self).sender.sent() + pkts
                                            && final(self)@ == (RouterView {
                                                reqs: rv.reqs.update(i, Some(ReqView {
                                                    sent_tag: Some(t),
                                                    ..rc
                                                })),
                                                next_tag: (((t + 1) % (TAG_MOD as int)) as u8),
                                                ..rv
                                            }),
                                        Err(e) => e == Error::InternalError
                                            && final(self)@ == old(self)@
                                            && exists|k: int| 0 <= k < pkts.len()
                                                && final(self).sender.sent()
                                                    == old(self).sender.sent() + pkts.take(k),
                                    }
                                },
                            }
                        }
                    },
                }
            }),
            payload@.len() <= MAX_MESSAGE && is_listener_handle(cookie.0) ==> ({
                let rv = old(self)@;
                let i = listener_index(cookie.0);
                match rv.listeners[i] {
                    None => r == Err::<Tag, Error>(Error::BadArgument)
                        && final(self)@ == old(self)@ && final(self).sender == old(self).sender,
                    Some(l) => {
                        if eid is None || tag is None || tag->Some_0 >= TAG_MOD {
                            r == Err::<Tag, Error>(Error::BadArgument)
                                && final(self)@ == old(self)@
                                && final(self).sender == old(self).sender
                        } else {
                            let pkts = spec_packets(
                                FragSetup {
                                    dest: eid->Some_0,
                                    src: rv.eid,
                                    tag: tag->Some_0,
                                    tag_owned: false,
                                    ic,
                                    msg_type,
                                },
                                payload@,
                                old(self).sender.mtu_spec() as nat,
                            );
                            &&& old(self).sender.never_fails() ==> r is Ok
                            &&& match r {
                                Ok(tg) => tg == Tag::Unowned(tag->Some_0)
                                    && final(self)@ == old(self)@
                                    && final(self).sender.sent()
                                        == old(self).sender.sent() + pkts,
                                Err(e) => e == Error::InternalError
                                    && final(self)@ == old(self)@
                                    && exists|k: int| 0 <= k < pkts.len()
                                        && final(self).sender.sent()
                                            == old(self).sender.sent() + pkts.take(k),
                            }
                        }
                    },
                }
            }),
            payload@.len() <= MAX_MESSAGE && !is_req_handle(cookie.0)
                && !is_listener_handle(cookie.0) ==> r == Err::<Tag, Error>(Error::BadArgument)
                && final(self)@ == old(self)@ && final(self).sender == old(self).sender,
    {
        if payload.len() > MAX_MESSAGE {
            return Err(Error::NoSpace);
        }
        let h = cookie.0;
        if h < MAX_REQUESTS as u32 {
            let i = h as usize;
            if self.reqs[i].is_none() {
                return Err(Error::BadArgument);
            }
            if tag.is_some() {
                return Err(Error::BadArgument);
            }
            let remote = match &self.reqs[i] {
                Some(rc) => rc.remote,
                None => 0,
            };
            match eid {
                Some(e) => {
                    if e != remote {
                        return Err(Error::BadArgument);
                    }
                }
                None => {}
            }
            let in_flight = match &self.reqs[i] {
                Some(rc) => rc.sent_tag.is_some(),
                None => false,
            };
            if in_flight {
                return Err(Error::BadArgument);
            }
            let t = match self.alloc_tag(remote) {
                Some(t) => t,
                None => {
                    return Err(Error::NoSpace);
                }
            };
            let setup = FragSetup {
                dest: remote,
                src: self.local_eid,
                tag: t,
                tag_owned: true,
                ic,
                msg_type,
            };
            if !emit(&mut self.sender, setup, payload) {
                return Err(Error::InternalError);
            }
            let mut slot = opt_take(&mut self.reqs, i);
            let mut rc = slot.unwrap();
            rc.sent_tag = Some(t);
            self.reqs.set(i, Some(rc));
            self.next_tag = (t + 1) % TAG_MOD;
            proof {
                let rv = old(self)@;
                let rc0 = rv.reqs[i as int]->Some_0;
                assert(self@ =~~= (RouterView {
                    reqs: rv.reqs.update(i as int, Some(ReqView { sent_tag: Some(t), ..rc0 })),
                    next_tag: (((t + 1) % (TAG_MOD as int)) as u8),
                    ..rv
                }));
                assert forall|j: int|
                    0 <= j < self@.reqs.len() && #[trigger] self@.reqs[j] is Some
                        && self@.reqs[j]->Some_0.sent_tag is Some
                    implies self@.reqs[j]->Some_0.sent_tag->Some_0 < TAG_MOD by {
                    if j != i as int {
                        assert(self@.reqs[j] == old(self)@.reqs[j]);
                    }
                }
            }
            Ok(Tag::Owned(t))
        } else if h < (MAX_REQUESTS + MAX_LISTENERS) as u32 {
            let i = h as usize - MAX_REQUESTS;
            if self.listeners[i].is_none() {
                return Err(Error::BadArgument);
            }
            let e = match eid {
                Some(e) => e,
                None => {
                    return Err(Error::BadArgument);
                }
            };
            let tv = match tag {
                Some(tv) => tv,
                None => {
                    return Err(Error::BadArgument);
                }
            };
            if tv >= TAG_MOD {
                return Err(Error::BadArgument);
            }
            let setup = FragSetup {
                dest: e,
                src: self.local_eid,
                tag: tv,
                tag_owned: false,
                ic,
                msg_type,
            };
            if !emit(&mut self.sender, setup, payload) {
                return Err(Error::InternalError);
            }
            Ok(Tag::Unowned(tv))
        } else {
            Err(Error::BadArgument)
        }
    }

    /// The time the router last saw.
    pub fn now(&self) -> (r: u64)
        ensures
            r == self@.now,
    {
        self.now
    }
}

/// Law: a `req` call on a full request table fails with `NoSpace` and
/// leaves the router — every existing handle included — unchanged.
pub proof fn lemma_req_when_full(rv: RouterView, remote: u8)
    requires
        rv_wf(rv),
        forall|i: int| 0 <= i < rv.reqs.len() ==> rv.reqs[i] is Some,
    ensures
        req_spec(rv, remote) == (rv, Err::<u32, Error>(Error::NoSpace)),
{
    lemma_find_opt_props(rv.reqs, |o: Option<ReqView>| o is None);
    match find_opt(rv.reqs, |o: Option<ReqView>| o is None) {
        Some(i) => {
            assert(rv.reqs[i] is Some);
            assert(false);
        }
        None => {}
    }
}

/// Law: whatever `req` returns, the request channels that already existed
/// keep their slots and their state.
pub proof fn lemma_req_preserves_channels(rv: RouterView, remote: u8)
    requires
        rv_wf(rv),
    ensures
        forall|j: int| 0 <= j < rv.reqs.len() && rv.reqs[j] is Some
            ==> #[trigger] req_spec(rv, remote).0.reqs[j] == rv.reqs[j],
{
    lemma_find_opt_props(rv.reqs, |o: Option<ReqView>| o is None);
    match find_opt(rv.reqs, |o: Option<ReqView>| o is None) {
        Some(i) => {
            assert(rv.reqs[i] is None);
            assert forall|j: int| 0 <= j < rv.reqs.len() && rv.reqs[j] is Some
                implies #[trigger] req_spec(rv, remote).0.reqs[j] == rv.reqs[j] by {
                assert(j != i);
            }
        }
        None => {}
    }
}

/// Law: while a listener for a message type is active, a second `listener`
/// call for the same type fails with `AddrInUse` and changes nothing.
pub proof fn lemma_listener_in_use(rv: RouterView, msg_type: u8, i: int)
    requires
        rv_wf(rv),
        0 <= i < rv.listeners.len(),
        rv.listeners[i] is Some,
        rv.listeners[i]->Some_0.msg_type == msg_type,
    ensures
        listener_spec(rv, msg_type) == (rv, Err::<u32, Error>(Error::AddrInUse)),
{
    let p = |o: Option<ListView>| o matches Some(l) && l.msg_type == msg_type;
    lemma_find_opt_props(rv.listeners, p);
    match find_opt(rv.listeners, p) {
        Some(_) => {}
        None => {
            assert(!p(rv.listeners[i]));
            assert(false);
        }
    }
}

/// Law: after the only listener for a message type releases its handle, a
/// new `listener` call for that type succeeds again.
pub proof fn lemma_listener_after_release(rv: RouterView, msg_type: u8, h: u32)
    requires
        rv_wf(rv),
        is_listener_handle(h),
        rv.listeners[listener_index(h)] is Some,
        rv.listeners[listener_index(h)]->Some_0.msg_type == msg_type,
        forall|j: int| 0 <= j < rv.listeners.len() && j != listener_index(h)
            ==> !(#[trigger] rv.listeners[j] matches Some(l) && l.msg_type == msg_type),
    ensures
        release_spec(rv, h).1 == Ok::<(), Error>(()),
        listener_spec(release_spec(rv, h).0, msg_type).1 is Ok,
{
    let li = listener_index(h);
    let rv2 = release_spec(rv, h).0;
    assert(rv2.listeners == rv.listeners.update(li, None));
    let p = |o: Option<ListView>| o matches Some(l) && l.msg_type == msg_type;
    lemma_find_opt_props(rv2.listeners, p);
    match find_opt(rv2.listeners, p) {
        Some(j) => {
            assert(p(rv2.listeners[j]));
            if j == li {
                assert(rv2.listeners[j] is None);
            } else {
                assert(rv2.listeners[j] == rv.listeners[j]);
            }
            assert(false);
        }
        None => {}
    }
    let q = |o: Option<ListView>| o is None;
    lemma_find_opt_props(rv2.listeners, q);
    match find_opt(rv2.listeners, q) {
        Some(_) => {}
        None => {
            assert(!q(rv2.listeners[li]));
            assert(false);
        }
    }
}

/// Fragments one payload and hands every packet to the sender, in order.
/// Returns whether the whole train was accepted; on a transport failure a
/// prefix of the train has been sent and the rest is abandoned.
fn emit<S: Sender>(sender: &mut S, setup: FragSetup, payload: &[u8]) -> (r: bool)
    requires
        1 <= old(sender).mtu_spec(),
        old(sender).mtu_spec() + HEADER_LEN <= usize::MAX,
        setup.tag < TAG_MOD,
        payload@.len() <= MAX_MESSAGE,
    ensures
        final(sender).mtu_spec() == old(sender).mtu_spec(),
        final(sender).never_fails() == old(sender).never_fails(),
        old(sender).never_fails() ==> r,
        ({
            let pkts = spec_packets(setup, payload@, old(sender).mtu_spec() as nat);
            &&& r ==> final(sender).sent() == old(sender).sent() + pkts
            &&& !r ==> exists|k: int| 0 <= k < pkts.len()
                    && final(sender).sent() == old(sender).sent() + pkts.take(k)
        }),
{
    let mtu = sender.mtu();
    let mut fr = Fragmenter::new(setup, mtu);
    proof {
        lemma_chunk_count_le(payload@, mtu as nat);
        lemma_chunk_count_at_least_one(payload@, mtu as nat);
        assert(fr.count * fr.mtu == 0) by (nonlinear_arith)
            requires fr.count == 0,
        ;
    }
    let ghost start = sender.sent();
    let ghost pkts = spec_packets(setup, payload@, mtu as nat);
    let mut finished = false;
    let mut failed = false;
    proof {
        assert(start + pkts.take(0) =~= start);
    }
    while !finished && !failed
        invariant
            fr.wf(payload@),
            fr.setup == setup,
            fr.mtu == mtu,
            mtu == sender.mtu_spec(),
            sender.mtu_spec() == old(sender).mtu_spec(),
            sender.never_fails() == old(sender).never_fails(),
            old(sender).never_fails() ==> !failed,
            start == old(sender).sent(),
            pkts == spec_packets(setup, payload@, mtu as nat),
            finished ==> fr.done,
            !failed ==> sender.sent() == start + pkts.take(fr.count as int),
            failed ==> exists|k: int| 0 <= k < pkts.len()
                && sender.sent() == start + pkts.take(k),
        decreases
            chunk_count(payload@, fr.mtu as nat) - fr.count,
            (if finished { 0int } else { 1int }),
    {
        let out = fr.fragment(payload);
        match out {
            SendOutput::Packet(p) => {
                let ghost c = (fr.count - 1) as int;
                let res = sender.send_packet(&p);
                if res.is_err() {
                    failed = true;
                    proof {
                        assert(0 <= c < pkts.len());
                        assert(sender.sent() == start + pkts.take(c));
                    }
                } else {
                    proof {
                        assert(p@ == pkts[c]);
                        assert(sender.sent() =~= start + pkts.take(fr.count as int));
                    }
                }
            }
            SendOutput::Complete { tag: _ } => {
                finished = true;
            }
        }
    }
    if failed {
        false
    } else {
        proof {
            assert(fr.count == chunk_count(payload@, mtu as nat));
            assert(pkts.take(pkts.len() as int) =~= pkts);
        }
        true
    }
}

/// Takes the element at `i` out of an option table, leaving `None`.
fn opt_take<T>(v: &mut Vec<Option<T>>, i: usize) -> (r: Option<T>)
    requires
        i < old(v)@.len(),
    ensures
        r == old(v)@[i as int],
        final(v)@ == old(v)@.update(i as int, None::<T>),
{
    let mut tmp: Option<T> = None;
    core::mem::swap(&mut tmp, &mut v[i]);
    tmp
}

} // verus!
