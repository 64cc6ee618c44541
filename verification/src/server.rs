//! The server layer: outstanding receive calls and their deadlines.
//!
//! The server bridges the router's non-blocking `recv` to a blocking-call
//! model: a receive call with nothing pending is postponed, remembered with
//! its caller and deadline, and completed later by [`Server::update`] —
//! with the message once it arrives, or with `TimedOut` once the deadline
//! passes.  A deadline of 0 means the call never expires.

use vstd::prelude::*;
use crate::proto::{Eid, Error, GenericHandle, eid_valid};
use crate::reasm::{MctpMessage, MsgView};
use crate::wire::TAG_MOD;
use crate::frag::{FragSetup, spec_packets};
use crate::router::{Router, RouterView, ReqView, Sender, recv_spec, req_spec, listener_spec,
    alloc_tag_spec, NO_DEADLINE, is_req_handle, is_listener_handle, listener_index};
use crate::outstanding::{PendingTable, pending_map, pending_new, pending_get, pending_insert,
    pending_remove, pending_entries, MAX_OUTSTANDING};

verus! {

/// Errors the server reports to its clients.
#[derive(Clone, Copy, Debug, PartialEq, Eq, Structural)]
pub enum ServerError {
    /// The server task was recycled: every handle the client holds is
    /// stale and must be re-acquired.
    ServerRestarted,
    InternalError,
    NoSpace,
    AddrInUse,
    TimedOut,
    BadArgument,
}

impl ServerError {
    /// The stack error this server error stands for.
    pub fn to_stack_error(&self) -> (r: Error)
        ensures
            r == self.stack_error_spec(),
    {
        match self {
            ServerError::InternalError => Error::InternalError,
            ServerError::ServerRestarted => Error::InternalError,
            ServerError::NoSpace => Error::NoSpace,
            ServerError::AddrInUse => Error::AddrInUse,
            ServerError::TimedOut => Error::TimedOut,
            ServerError::BadArgument => Error::BadArgument,
        }
    }

    /// The stack error this server error stands for, in specifications.
    pub open spec fn stack_error_spec(&self) -> Error {
        match self {
            ServerError::InternalError => Error::InternalError,
            ServerError::ServerRestarted => Error::InternalError,
            ServerError::NoSpace => Error::NoSpace,
            ServerError::AddrInUse => Error::AddrInUse,
            ServerError::TimedOut => Error::TimedOut,
            ServerError::BadArgument => Error::BadArgument,
        }
    }

    /// The server error a stack error surfaces as.
    pub fn from_stack_error(e: Error) -> (r: ServerError)
        ensures
            r == ServerError::from_stack_spec(e),
    {
        match e {
            Error::InternalError => ServerError::InternalError,
            Error::NoSpace => ServerError::NoSpace,
            Error::AddrInUse => ServerError::AddrInUse,
            Error::TimedOut => ServerError::TimedOut,
            Error::BadArgument => ServerError::BadArgument,
            _ => ServerError::InternalError,
        }
    }

    /// The server error a stack error surfaces as, in specifications.
    pub open spec fn from_stack_spec(e: Error) -> ServerError {
        match e {
            Error::InternalError => ServerError::InternalError,
            Error::NoSpace => ServerError::NoSpace,
            Error::AddrInUse => ServerError::AddrInUse,
            Error::TimedOut => ServerError::TimedOut,
            Error::BadArgument => ServerError::BadArgument,
            _ => ServerError::InternalError,
        }
    }
}

/// Metadata returned alongside a received message.
#[derive(Clone, Copy, Debug, PartialEq, Eq, Structural)]
pub struct RecvMetadata {
    pub msg_typ: u8,
    pub msg_ic: bool,
    pub msg_tag: u8,
    pub remote_eid: u8,
    pub size: u64,
}

/// The metadata a message is reported with.
pub open spec fn metadata_spec(m: MsgView) -> RecvMetadata {
    RecvMetadata {
        msg_typ: m.msg_type,
        msg_ic: m.ic,
        msg_tag: m.tag,
        remote_eid: m.source,
        size: m.payload.len() as u64,
    }
}

/// Builds the reply metadata of a received message.
pub fn metadata_of(m: &MctpMessage) -> (r: RecvMetadata)
    requires
        m.payload@.len() <= u64::MAX,
    ensures
        r == metadata_spec(m@),
{
    RecvMetadata {
        msg_typ: m.msg_type,
        msg_ic: m.ic,
        msg_tag: m.tag,
        remote_eid: m.source,
        size: m.payload.len() as u64,
    }
}

/// What a receive call comes back with: a message at once, a postponed
/// reply, or a refusal because the outstanding table is full.
#[derive(Debug)]
pub enum RecvOutcome {
    /// A message was already pending: the call completes now.
    Ready(MctpMessage),
    /// Nothing is pending: the reply is owed later, by `update`.
    Postponed,
    /// The outstanding table is full: the call fails with `NoSpace`.
    Refused,
}

/// One completed outstanding call, for the caller to be answered with.
#[derive(Debug)]
pub struct Completion {
    /// The caller that was waiting.
    pub caller: u32,
    /// The handle it was waiting on.
    pub handle: GenericHandle,
    /// The delivered message, or `TimedOut`.
    pub outcome: Result<MctpMessage, ServerError>,
}

/// Mathematical image of a whole server.
#[verifier::ext_equal]
pub ghost struct ServerView {
    pub router: RouterView,
    pub pending: Map<u32, (u32, u64)>,
}

/// Whether an outstanding entry stays after a sweep at time `now`: its
/// handle has no message pending and its deadline, unless exempt, has not
/// been reached.
pub open spec fn keep_entry(rv: RouterView, h: u32, deadline: u64, now: u64) -> bool {
    recv_spec(rv, h).1 is None && (deadline == 0 || now < deadline)
}

/// The outstanding table after one sweep at time `now`.
pub open spec fn swept_pending(v: ServerView, now: u64) -> Map<u32, (u32, u64)> {
    Map::new(
        |h: u32| v.pending.dom().contains(h) && keep_entry(v.router, h, v.pending[h].1, now),
        |h: u32| v.pending[h],
    )
}

/// Whether `r` is the time until the nearest deadline among the entries of
/// `p`, measured from `now`; `NO_DEADLINE` when no entry carries one.
pub open spec fn is_next_deadline(p: Map<u32, (u32, u64)>, now: u64, r: u64) -> bool {
    ||| (r == NO_DEADLINE && forall|h: u32| p.dom().contains(h) ==> #[trigger] p[h].1 == 0)
    ||| (exists|h: u32| #[trigger] p.dom().contains(h) && p[h].1 != 0 && r == p[h].1 - now)
        && (forall|h: u32| p.dom().contains(h) && #[trigger] p[h].1 != 0 ==> p[h].1 - now >= r)
}

/// A sweep leaves no entry whose deadline has passed.
pub open spec fn quiet(v: ServerView, now: u64) -> bool {
    forall|h: u32| v.pending.dom().contains(h)
        ==> keep_entry(v.router, h, (#[trigger] v.pending[h]).1, now)
}

/// The MCTP server: a router plus the outstanding receive calls.
pub struct Server<S: Sender> {
    /// The protocol stack itself.
    pub stack: Router<S>,
    /// The outstanding receive calls, keyed by handle.
    pub outstanding: PendingTable,
}

impl<S: Sender> View for Server<S> {
    type V = ServerView;

    open spec fn view(&self) -> ServerView {
        ServerView {
            router: self.stack@,
            pending: pending_map(self.outstanding),
        }
    }
}

impl<S: Sender> Server<S> {
    /// The server's invariant: a well-formed router and a bounded, finite
    /// outstanding table.
    pub open spec fn wf(self) -> bool {
        &&& self.stack.wf()
        &&& self@.pending.dom().finite()
        &&& self@.pending.dom().len() <= MAX_OUTSTANDING
    }

    /// A new server around a fresh router; nothing is outstanding.
    pub fn new(own_eid: Eid, now_millis: u64, outbound: S) -> (r: Server<S>)
        requires
            eid_valid(own_eid.0),
            1 <= outbound.mtu_spec(),
            outbound.mtu_spec() + crate::wire::HEADER_LEN <= usize::MAX,
        ensures
            r.wf(),
            r@.router.eid == own_eid.0,
            r@.router.now == now_millis,
            r@.pending.dom() == Set::<u32>::empty(),
            r.stack.sender == outbound,
            forall|i: int| 0 <= i < r@.router.reqs.len() ==> r@.router.reqs[i] is None,
            forall|i: int| 0 <= i < r@.router.listeners.len() ==> r@.router.listeners[i] is None,
    {
        let r = Server {
            stack: Router::new(own_eid, now_millis, outbound),
            outstanding: pending_new(),
        };
        proof {
            assert(r@.pending.dom() =~= Set::<u32>::empty());
        }
        r
    }

    /// Answers a request for a request-channel handle towards `eid`.
    pub fn req(&mut self, eid: u8) -> (r: Result<GenericHandle, ServerError>)
        requires
            old(self).wf(),
        ensures
            final(self).wf(),
            final(self)@.pending == old(self)@.pending,
            final(self).stack.sender == old(self).stack.sender,
            ({
                let (rv2, rr) = req_spec(old(self)@.router, eid);
                &&& final(self)@.router == rv2
                &&& match (r, rr) {
                    (Ok(h), Ok(h2)) => h.0 == h2,
                    (Err(e), Err(e2)) => e == ServerError::from_stack_spec(e2),
                    _ => false,
                }
            }),
    {
        match self.stack.req(Eid(eid)) {
            Ok(h) => Ok(h),
            Err(e) => Err(ServerError::from_stack_error(e)),
        }
    }

    /// Answers a request for a listener handle for a message type.
    pub fn listener(&mut self, typ: u8) -> (r: Result<GenericHandle, ServerError>)
        requires
            old(self).wf(),
        ensures
            final(self).wf(),
            final(self)@.pending == old(self)@.pending,
            final(self).stack.sender == old(self).stack.sender,
            ({
                let (rv2, rr) = listener_spec(old(self)@.router, typ);
                &&& final(self)@.router == rv2
                &&& match (r, rr) {
                    (Ok(h), Ok(h2)) => h.0 == h2,
                    (Err(e), Err(e2)) => e == ServerError::from_stack_spec(e2),
                    _ => false,
                }
            }),
    {
        match self.stack.listener(typ) {
            Ok(h) => Ok(h),
            Err(e) => Err(ServerError::from_stack_error(e)),
        }
    }

    /// The stack's own endpoint ID.
    pub fn get_eid(&self) -> (r: u8)
        ensures
            r == self@.router.eid,
    {
        self.stack.get_eid().0
    }

    /// Replaces the stack's own endpoint ID.
    pub fn set_eid(&mut self, eid: u8) -> (r: Result<(), ServerError>)
        requires
            old(self).wf(),
        ensures
            final(self).wf(),
            final(self)@.pending == old(self)@.pending,
            final(self).stack.sender == old(self).stack.sender,
            eid_valid(eid) ==> r == Ok::<(), ServerError>(())
                && final(self)@.router == (RouterView { eid, ..old(self)@.router }),
            !eid_valid(eid) ==> r == Err::<(), ServerError>(ServerError::BadArgument)
                && final(self)@.router == old(self)@.router,
    {
        match self.stack.set_eid(Eid(eid)) {
            Ok(()) => Ok(()),
            Err(e) => Err(ServerError::from_stack_error(e)),
        }
    }

    /// A client's send call: sends one message on the channel the handle
    /// names and reports the tag of the exchange.  A request lets the stack
    /// allocate a fresh owned tag; a response names its destination and
    /// echoed tag.  The outcome of every input mirrors the router's send,
    /// with the errors mapped to server errors.
    pub fn send(&mut self, handle: GenericHandle, typ: u8, eid: Option<u8>, tag: Option<u8>,
        ic: bool, payload: &[u8]) -> (r: Result<u8, ServerError>)
        requires
            old(self).wf(),
        ensures
            final(self).wf(),
            final(self)@.pending == old(self)@.pending,
            final(self).stack.sender.mtu_spec() == old(self).stack.sender.mtu_spec(),
            final(self).stack.sender.never_fails() == old(self).stack.sender.never_fails(),
            payload@.len() > crate::MAX_MESSAGE ==> r == Err::<u8, ServerError>(ServerError::NoSpace)
                && final(self)@.router == old(self)@.router
                && final(self).stack.sender == old(self).stack.sender,
            payload@.len() <= crate::MAX_MESSAGE && is_req_handle(handle.0) ==> ({
                let rv = old(self)@.router;
                let i = handle.0 as int;
                match rv.reqs[i] {
                    None => r == Err::<u8, ServerError>(ServerError::BadArgument)
                        && final(self)@.router == rv
                        && final(self).stack.sender == old(self).stack.sender,
                    Some(rc) => {
                        if tag is Some || (eid is Some && eid->Some_0 != rc.remote)
                            || rc.sent_tag is Some {
                            r == Err::<u8, ServerError>(ServerError::BadArgument)
                                && final(self)@.router == rv
                                && final(self).stack.sender == old(self).stack.sender
                        } else {
                            match alloc_tag_spec(rv.reqs, rc.remote, rv.next_tag) {
                                None => r == Err::<u8, ServerError>(ServerError::NoSpace)
                                    && final(self)@.router == rv
                                    && final(self).stack.sender == old(self).stack.sender,
                                Some(t) => {
                                    let pkts = spec_packets(
                                        FragSetup {
                                            dest: rc.remote,
                                            src: rv.eid,
                                            tag: t,
                                            tag_owned: true,
                                            ic,
                                            msg_type: typ,
                                        },
                                        payload@,
                                        old(self).stack.sender.mtu_spec() as nat,
                                    );
                                    &&& old(self).stack.sender.never_fails() ==> r is Ok
                                    &&& match r {
                                        Ok(tv) => tv == t
                                            && final(self).stack.sender.sent()
                                                == old(self).stack.sender.sent() + pkts
                                            && final(self)@.router == (RouterView {
                                                reqs: rv.reqs.update(i, Some(ReqView {
                                                    sent_tag: Some(t),
                                                    ..rc
                                                })),
                                                next_tag: (((t + 1) % (TAG_MOD as int)) as u8),
                                                ..rv
                                            }),
                                        Err(e) => e == ServerError::InternalError
                                            && final(self)@.router == rv
                                            && exists|k: int| 0 <= k < pkts.len()
                                                && final(self).stack.sender.sent()
                                                    == old(self).stack.sender.sent()
                                                        + pkts.take(k),
                                    }
                                },
                            }
                        }
                    },
                }
            }),
            payload@.len() <= crate::MAX_MESSAGE && is_listener_handle(handle.0) ==> ({
                let rv = old(self)@.router;
                let i = listener_index(handle.0);
                match rv.listeners[i] {
                    None => r == Err::<u8, ServerError>(ServerError::BadArgument)
                        && final(self)@.router == rv
                        && final(self).stack.sender == old(self).stack.sender,
                    Some(l) => {
                        if eid is None || tag is None || tag->Some_0 >= TAG_MOD {
                            r == Err::<u8, ServerError>(ServerError::BadArgument)
                                && final(self)@.router == rv
                                && final(self).stack.sender == old(self).stack.sender
                        } else {
                            let pkts = spec_packets(
                                FragSetup {
                                    dest: eid->Some_0,
                                    src: rv.eid,
                                    tag: tag->Some_0,
                                    tag_owned: false,
                                    ic,
                                    msg_type: typ,
                                },
                                payload@,
                                old(self).stack.sender.mtu_spec() as nat,
                            );
                            &&& old(self).stack.sender.never_fails() ==> r is Ok
                            &&& match r {
                                Ok(tv) => tv == tag->Some_0
                                    && final(self)@.router == rv
                                    && final(self).stack.sender.sent()
                                        == old(self).stack.sender.sent() + pkts,
                                Err(e) => e == ServerError::InternalError
                                    && final(self)@.router == rv
                                    && exists|k: int| 0 <= k < pkts.len()
                                        && final(self).stack.sender.sent()
                                            == old(self).stack.sender.sent() + pkts.take(k),
                            }
                        }
                    },
                }
            }),
            payload@.len() <= crate::MAX_MESSAGE && !is_req_handle(handle.0)
                && !is_listener_handle(handle.0)
                ==> r == Err::<u8, ServerError>(ServerError::BadArgument)
                    && final(self)@.router == old(self)@.router
                    && final(self).stack.sender == old(self).stack.sender,
    {
        match self.stack.send(eid, typ, tag, ic, handle, payload) {
            Ok(t) => Ok(t.tag()),
            Err(e) => Err(ServerError::from_stack_error(e)),
        }
    }

    /// A client's receive call: completes at once when a message is
    /// pending; otherwise the call is remembered with its deadline —
    /// `now + timeout_millis`, or 0 (never expires) when the timeout is 0.
    /// A second call for a handle already waiting does not overwrite the
    /// first.  A full outstanding table refuses the call.
    pub fn recv(&mut self, caller: u32, handle: GenericHandle, timeout_millis: u32)
        -> (r: RecvOutcome)
        requires
            old(self).wf(),
            old(self)@.router.now + timeout_millis <= u64::MAX,
        ensures
            final(self).wf(),
            final(self).stack.sender == old(self).stack.sender,
            ({
                let (rv2, popped) = recv_spec(old(self)@.router, handle.0);
                match popped {
                    Some(mv) => {
                        &&& r matches RecvOutcome::Ready(m) && m@ == mv
                        &&& final(self)@.router == rv2
                        &&& final(self)@.pending == old(self)@.pending.remove(handle.0)
                    },
                    None => {
                        let deadline: u64 = if timeout_millis != 0 {
                            (old(self)@.router.now + timeout_millis) as u64
                        } else {
                            0
                        };
                        &&& final(self)@.router == old(self)@.router
                        &&& if old(self)@.pending.dom().contains(handle.0) {
                                r is Postponed && final(self)@.pending == old(self)@.pending
                            } else if old(self)@.pending.dom().len() < MAX_OUTSTANDING {
                                r is Postponed && final(self)@.pending
                                    == old(self)@.pending.insert(handle.0, (caller, deadline))
                            } else {
                                r is Refused && final(self)@.pending == old(self)@.pending
                            }
                    },
                }
            }),
    {
        match self.stack.recv(handle) {
            Some(m) => {
                pending_remove(&mut self.outstanding, handle.0);
                RecvOutcome::Ready(m)
            }
            None => {
                let deadline: u64 = if timeout_millis != 0 {
                    self.stack.now() + timeout_millis as u64
                } else {
                    0
                };
                match pending_get(&self.outstanding, handle.0) {
                    Some(_) => RecvOutcome::Postponed,
                    None => {
                        if pending_insert(&mut self.outstanding, handle.0, (caller, deadline)) {
                            proof {
                                vstd::set_lib::lemma_len_subset(
                                    old(self)@.pending.dom(),
                                    self@.pending.dom(),
                                );
                            }
                            RecvOutcome::Postponed
                        } else {
                            RecvOutcome::Refused
                        }
                    }
                }
            }
        }
    }

    /// One step of the sweep: answers the outstanding entry for `h` — with
    /// its pending message, or with `TimedOut` once its deadline has passed
    /// — and removes it; an entry with nothing due stays untouched.
    #[verifier::spinoff_prover]
    fn sweep_one(&mut self, h: u32, caller: u32, deadline: u64, now_millis: u64)
        -> (c: Option<Completion>)
        requires
            old(self).wf(),
            old(self)@.pending.dom().contains(h),
            old(self)@.pending[h] == (caller, deadline),
        ensures
            final(self).wf(),
            final(self).stack.sender == old(self).stack.sender,
            final(self)@.router.eid == old(self)@.router.eid,
            final(self)@.router.next_tag == old(self)@.router.next_tag,
            final(self)@.router.now == old(self)@.router.now,
            final(self)@.router.reasm == old(self)@.router.reasm,
            forall|h2: u32| h2 != h ==> #[trigger] recv_spec(final(self)@.router, h2).1
                == recv_spec(old(self)@.router, h2).1,
            keep_entry(old(self)@.router, h, deadline, now_millis)
                ==> c is None && final(self)@ == old(self)@,
            !keep_entry(old(self)@.router, h, deadline, now_millis) ==> ({
                &&& final(self)@.pending == old(self)@.pending.remove(h)
                &&& c matches Some(comp) && comp.handle.0 == h && comp.caller == caller
                    && match comp.outcome {
                        Ok(m) => recv_spec(old(self)@.router, h).1 == Some(m@),
                        Err(e) => e == ServerError::TimedOut
                            && recv_spec(old(self)@.router, h).1 is None
                            && deadline != 0 && now_millis >= deadline,
                    }
            }),
    {
        let popped = self.stack.recv(GenericHandle(h));
        match popped {
            Some(m) => {
                pending_remove(&mut self.outstanding, h);
                proof {
                    lemma_recv_other_handles(old(self)@.router, h);
                    vstd::set_lib::lemma_len_subset(self@.pending.dom(),
                        old(self)@.pending.dom());
                }
                Some(Completion {
                    caller,
                    handle: GenericHandle(h),
                    outcome: Ok(m),
                })
            }
            None => {
                if deadline != 0 && now_millis >= deadline {
                    pending_remove(&mut self.outstanding, h);
                    proof {
                        vstd::set_lib::lemma_len_subset(self@.pending.dom(),
                            old(self)@.pending.dom());
                    }
                    Some(Completion {
                        caller,
                        handle: GenericHandle(h),
                        outcome: Err(ServerError::TimedOut),
                    })
                } else {
                    None
                }
            }
        }
    }

    /// The sweep itself: delivers messages to waiting calls and times out
    /// calls whose deadline has passed, answering every call it drops.
    #[verifier::loop_isolation(false)]
    #[verifier::rlimit(100)]
    fn run_sweep(&mut self, now_millis: u64) -> (r: Vec<Completion>)
        requires
            old(self).wf(),
        ensures
            final(self).wf(),
            final(self).stack.sender == old(self).stack.sender,
            final(self)@.pending =~= swept_pending(old(self)@, now_millis),
            final(self)@.router.eid == old(self)@.router.eid,
            final(self)@.router.next_tag == old(self)@.router.next_tag,
            final(self)@.router.now == now_millis,
            forall|i: int| 0 <= i < r@.len() ==> {
                let c = #[trigger] r@[i];
                &&& old(self)@.pending.dom().contains(c.handle.0)
                &&& c.caller == old(self)@.pending[c.handle.0].0
                &&& !keep_entry(old(self)@.router, c.handle.0,
                        old(self)@.pending[c.handle.0].1, now_millis)
                &&& match c.outcome {
                    Ok(m) => recv_spec(old(self)@.router, c.handle.0).1 == Some(m@),
                    Err(e) => e == ServerError::TimedOut
                        && recv_spec(old(self)@.router, c.handle.0).1 is None
                        && old(self)@.pending[c.handle.0].1 != 0
                        && now_millis >= old(self)@.pending[c.handle.0].1,
                }
            },
            forall|i: int, j: int| 0 <= i < j < r@.len()
                ==> #[trigger] r@[i].handle.0 != #[trigger] r@[j].handle.0,
            // every swept-out entry is answered: exactly one completion each
            forall|h: u32| old(self)@.pending.dom().contains(h)
                && !keep_entry(old(self)@.router, h, (#[trigger] old(self)@.pending[h]).1,
                    now_millis)
                ==> exists|i: int| 0 <= i < r@.len() && (#[trigger] r@[i]).handle.0 == h,
    {
        let ghost v0 = old(self)@;
        let _ = self.stack.update(now_millis);
        let ghost rv1 = self@.router;
        proof {
            assert(rv1 == (RouterView { now: now_millis, ..v0.router }));
        }
        let entries = pending_entries(&self.outstanding);
        let ghost sender0 = self.stack.sender;
        let ghost mut witness = Map::<u32, int>::empty();
        let mut completions: Vec<Completion> = Vec::new();
        let mut k: usize = 0;
        #[verifier::loop_isolation(true)]
        while k < entries.len()
            invariant
                k <= entries@.len(),
                self.stack.wf(),
                self.stack.sender == sender0,
                // what the entry list says of the starting table
                forall|i: int| 0 <= i < entries@.len()
                    ==> v0.pending.dom().contains((#[trigger] entries@[i]).0)
                        && v0.pending[entries@[i].0] == entries@[i].1,
                forall|i: int, j: int| 0 <= i < j < entries@.len()
                    ==> (#[trigger] entries@[i]).0 != (#[trigger] entries@[j]).0,
                self@.router.eid == v0.router.eid,
                self@.router.next_tag == v0.router.next_tag,
                self@.router.now == now_millis,
                self@.router.reasm == v0.router.reasm,
                // untouched handles still look as they did at the start
                forall|j: int| k <= j < entries@.len()
                    ==> recv_spec(self@.router, (#[trigger] entries@[j]).0).1
                        == recv_spec(v0.router, entries@[j].0).1,
                // processed entries are swept out unless they are kept
                forall|j: int| 0 <= j < k ==> {
                    let h = (#[trigger] entries@[j]).0;
                    if keep_entry(v0.router, h, v0.pending[h].1, now_millis) {
                        self@.pending.dom().contains(h)
                    } else {
                        !self@.pending.dom().contains(h)
                    }
                },
                // unprocessed entries are still present
                forall|j: int| k <= j < entries@.len()
                    ==> self@.pending.dom().contains((#[trigger] entries@[j]).0),
                // nothing appears from nowhere, and values never change
                forall|h: u32| #[trigger] self@.pending.dom().contains(h)
                    ==> v0.pending.dom().contains(h) && self@.pending[h] == v0.pending[h],
                self@.pending.dom().finite(),
                self@.pending.dom().len() <= MAX_OUTSTANDING,
                forall|i: int| 0 <= i < completions@.len() ==> {
                    let c = #[trigger] completions@[i];
                    &&& v0.pending.dom().contains(c.handle.0)
                    &&& c.caller == v0.pending[c.handle.0].0
                    &&& !keep_entry(v0.router, c.handle.0, v0.pending[c.handle.0].1, now_millis)
                    &&& match c.outcome {
                        Ok(m) => recv_spec(v0.router, c.handle.0).1 == Some(m@),
                        Err(e) => e == ServerError::TimedOut
                            && recv_spec(v0.router, c.handle.0).1 is None
                            && v0.pending[c.handle.0].1 != 0
                            && now_millis >= v0.pending[c.handle.0].1,
                    }
                },
                forall|i: int, j: int| 0 <= i < j < completions@.len()
                    ==> #[trigger] completions@[i].handle.0
                        != #[trigger] completions@[j].handle.0,
                // an answered call is out of the table for good
                forall|i: int| 0 <= i < completions@.len()
                    ==> !self@.pending.dom().contains((#[trigger] completions@[i]).handle.0),
                // the witness map records which completion answered which entry
                forall|j: int| 0 <= j < k
                    && !keep_entry(v0.router, (#[trigger] entries@[j]).0,
                        v0.pending[entries@[j].0].1, now_millis)
                    ==> ({
                        let h = entries@[j].0;
                        &&& witness.dom().contains(h)
                        &&& 0 <= witness[h] < completions@.len()
                        &&& completions@[witness[h]].handle.0 == h
                    }),
            decreases entries@.len() - k,
        {
            let (h, (caller, deadline)) = entries[k];
            let ghost rv_before = self@.router;
            let ghost pend_before = self@.pending;
            let ghost comps0 = completions@;
            proof {
                // the entry's own slot is untouched, so the old-view verdict applies
                assert(recv_spec(rv_before, h).1 == recv_spec(v0.router, h).1);
                assert(v0.pending[h] == (caller, deadline));
            }
            let c = self.sweep_one(h, caller, deadline, now_millis);
            match c {
                Some(comp) => {
                    completions.push(comp);
                    proof {
                        assert(!keep_entry(v0.router, h, v0.pending[h].1, now_millis));
                        witness = witness.insert(h, comps0.len() as int);
                        assert forall|i: int| 0 <= i < comps0.len()
                            implies completions@[i] == comps0[i] by {}
                        assert forall|j: int| k + 1 <= j < entries@.len()
                            implies recv_spec(self@.router, (#[trigger] entries@[j]).0).1
                                == recv_spec(v0.router, entries@[j].0).1 by {
                            assert(entries@[j].0 != h);
                        }
                        // the answered handle was still in the table; earlier
                        // completions' handles were not, so it is fresh
                        assert forall|i: int, j: int| 0 <= i < j < completions@.len()
                            implies #[trigger] completions@[i].handle.0
                                != #[trigger] completions@[j].handle.0 by {
                            if j == comps0.len() {
                                assert(!pend_before.dom().contains(comps0[i].handle.0));
                                assert(pend_before.dom().contains(h));
                            }
                        }
                        assert forall|i: int| 0 <= i < completions@.len()
                            implies !self@.pending.dom().contains(
                                (#[trigger] completions@[i]).handle.0) by {
                            assert(self@.pending == pend_before.remove(h));
                        }
                        assert forall|j: int| 0 <= j < k + 1
                            && !keep_entry(v0.router, (#[trigger] entries@[j]).0,
                                v0.pending[entries@[j].0].1, now_millis)
                            implies ({
                                let h2 = entries@[j].0;
                                &&& witness.dom().contains(h2)
                                &&& 0 <= witness[h2] < completions@.len()
                                &&& completions@[witness[h2]].handle.0 == h2
                            }) by {
                            if j < k {
                                assert(entries@[j].0 != h);
                            } else {
                                assert(witness[h] == comps0.len());
                            }
                        }
                    }
                }
                None => {
                    proof {
                        // the entry stays: no deadline pressure, no message
                        assert(keep_entry(v0.router, h, v0.pending[h].1, now_millis));
                        assert forall|j: int| 0 <= j < k + 1
                            && !keep_entry(v0.router, (#[trigger] entries@[j]).0,
                                v0.pending[entries@[j].0].1, now_millis)
                            implies ({
                                let h2 = entries@[j].0;
                                &&& witness.dom().contains(h2)
                                &&& 0 <= witness[h2] < completions@.len()
                                &&& completions@[witness[h2]].handle.0 == h2
                            }) by {
                            assert(j != k);
                        }
                    }
                }
            }
            k += 1;
        }
        proof {
            assert(sender0 == old(self).stack.sender);
            lemma_swept_table(self@.pending, v0, entries@, now_millis);
            lemma_swept_answered(completions@, witness, v0, entries@, now_millis);
        }
        completions
    }

    /// The sweep: delivers messages to waiting calls, times out calls
    /// whose deadline has passed, and reports the wait until the nearest
    /// remaining deadline.
    pub fn update(&mut self, now_millis: u64) -> (r: (Vec<Completion>, u64))
        requires
            old(self).wf(),
        ensures
            final(self).wf(),
            final(self).stack.sender == old(self).stack.sender,
            final(self)@.pending =~= swept_pending(old(self)@, now_millis),
            is_next_deadline(swept_pending(old(self)@, now_millis), now_millis, r.1),
            quiet(old(self)@, now_millis) ==> final(self)@.pending == old(self)@.pending
                && r.0@.len() == 0,
            final(self)@.router.eid == old(self)@.router.eid,
            final(self)@.router.next_tag == old(self)@.router.next_tag,
            final(self)@.router.now == now_millis,
            forall|i: int| 0 <= i < r.0@.len() ==> {
                let c = #[trigger] r.0@[i];
                &&& old(self)@.pending.dom().contains(c.handle.0)
                &&& c.caller == old(self)@.pending[c.handle.0].0
                &&& !keep_entry(old(self)@.router, c.handle.0,
                        old(self)@.pending[c.handle.0].1, now_millis)
                &&& match c.outcome {
                    Ok(m) => recv_spec(old(self)@.router, c.handle.0).1 == Some(m@),
                    Err(e) => e == ServerError::TimedOut
                        && recv_spec(old(self)@.router, c.handle.0).1 is None
                        && old(self)@.pending[c.handle.0].1 != 0
                        && now_millis >= old(self)@.pending[c.handle.0].1,
                }
            },
            forall|i: int, j: int| 0 <= i < j < r.0@.len()
                ==> #[trigger] r.0@[i].handle.0 != #[trigger] r.0@[j].handle.0,
            // every swept-out entry is answered: exactly one completion each
            forall|h: u32| old(self)@.pending.dom().contains(h)
                && !keep_entry(old(self)@.router, h, (#[trigger] old(self)@.pending[h]).1,
                    now_millis)
                ==> exists|i: int| 0 <= i < r.0@.len() && (#[trigger] r.0@[i]).handle.0 == h,
    {
        let ghost v0 = old(self)@;
        let completions = self.run_sweep(now_millis);
        proof {
            assert forall|h: u32| self@.pending.dom().contains(h)
                implies ((#[trigger] self@.pending[h]).1 == 0
                    || now_millis < self@.pending[h].1) by {
                assert(keep_entry(v0.router, h, v0.pending[h].1, now_millis));
            }
            if quiet(v0, now_millis) {
                // a quiet sweep keeps every entry and answers nobody
                assert(swept_pending(v0, now_millis) =~= v0.pending);
                assert(completions@.len() == 0) by {
                    if completions@.len() > 0 {
                        assert(v0.pending.dom().contains(completions@[0].handle.0));
                    }
                }
            }
        }
        let next = nearest_deadline(&self.outstanding, now_millis);
        (completions, next)
    }
}

/// The wait until the nearest deadline among the outstanding entries,
/// measured from `now`; `NO_DEADLINE` when no entry carries one.
#[verifier::loop_isolation(false)]
fn nearest_deadline(outstanding: &PendingTable, now: u64) -> (r: u64)
    requires
        forall|h: u32| pending_map(*outstanding).dom().contains(h)
            ==> ((#[trigger] pending_map(*outstanding)[h]).1 == 0
                || now < pending_map(*outstanding)[h].1),
    ensures
        is_next_deadline(pending_map(*outstanding), now, r),
{
    let ghost p = pending_map(*outstanding);
    let remaining = pending_entries(outstanding);
    let mut next: u64 = NO_DEADLINE;
    let mut j: usize = 0;
    while j < remaining.len()
        invariant
            j <= remaining@.len(),
            next == NO_DEADLINE || (exists|h: u32|
                #[trigger] p.dom().contains(h) && p[h].1 != 0
                    && next == p[h].1 - now),
            forall|i: int| 0 <= i < j && (#[trigger] remaining@[i]).1.1 != 0
                ==> remaining@[i].1.1 - now >= next,
        decreases remaining@.len() - j,
    {
        let (h, (_, dl)) = remaining[j];
        proof {
            assert(p.dom().contains(h) && p[h] == remaining@[j as int].1);
        }
        if dl != 0 {
            let wait = dl - now;
            if wait < next {
                next = wait;
                proof {
                    assert(p.dom().contains(h) && p[h].1 != 0 && next == p[h].1 - now);
                }
            }
        }
        j += 1;
    }
    proof {
        assert forall|h: u32| p.dom().contains(h) && #[trigger] p[h].1 != 0
            implies p[h].1 - now >= next by {
            let i = choose|i: int| 0 <= i < remaining@.len() && (#[trigger] remaining@[i]).0 == h;
            assert(remaining@[i].1 == p[h]);
        }
        if next == NO_DEADLINE {
            if exists|h: u32| #[trigger] p.dom().contains(h) && p[h].1 != 0 {
                let h = choose|h: u32| #[trigger] p.dom().contains(h) && p[h].1 != 0;
                assert(p[h].1 - now >= next);
                assert(p[h].1 - now <= u64::MAX);
                assert(p[h].1 - now == next);
                assert(is_next_deadline(p, now, next));
            }
        }
    }
    next
}

/// A table that kept exactly the keepable entries, entry by entry, is the
/// swept table.
proof fn lemma_swept_table(p: Map<u32, (u32, u64)>, v0: ServerView,
    entries: Seq<(u32, (u32, u64))>, now: u64)
    requires
        forall|i: int| 0 <= i < entries.len()
            ==> v0.pending.dom().contains((#[trigger] entries[i]).0)
                && v0.pending[entries[i].0] == entries[i].1,
        forall|h: u32| v0.pending.dom().contains(h)
            ==> exists|i: int| 0 <= i < entries.len() && (#[trigger] entries[i]).0 == h,
        forall|j: int| 0 <= j < entries.len() ==> {
            let h = (#[trigger] entries[j]).0;
            if keep_entry(v0.router, h, v0.pending[h].1, now) {
                p.dom().contains(h)
            } else {
                !p.dom().contains(h)
            }
        },
        forall|h: u32| #[trigger] p.dom().contains(h)
            ==> v0.pending.dom().contains(h) && p[h] == v0.pending[h],
    ensures
        p =~= swept_pending(v0, now),
{
    assert forall|h: u32| #[trigger] swept_pending(v0, now).dom().contains(h)
        implies p.dom().contains(h) by {
        let j = choose|j: int| 0 <= j < entries.len() && (#[trigger] entries[j]).0 == h;
    }
    assert forall|h: u32| #[trigger] p.dom().contains(h)
        implies swept_pending(v0, now).dom().contains(h) by {
        let j = choose|j: int| 0 <= j < entries.len() && (#[trigger] entries[j]).0 == h;
    }
}

/// Every entry the sweep dropped has its completion: the witness map names
/// it.
proof fn lemma_swept_answered(comps: Seq<Completion>, wit: Map<u32, int>, v0: ServerView,
    entries: Seq<(u32, (u32, u64))>, now: u64)
    requires
        forall|h: u32| v0.pending.dom().contains(h)
            ==> exists|i: int| 0 <= i < entries.len() && (#[trigger] entries[i]).0 == h,
        forall|j: int| 0 <= j < entries.len()
            && !keep_entry(v0.router, (#[trigger] entries[j]).0,
                v0.pending[entries[j].0].1, now)
            ==> ({
                let h = entries[j].0;
                &&& wit.dom().contains(h)
                &&& 0 <= wit[h] < comps.len()
                &&& comps[wit[h]].handle.0 == h
            }),
    ensures
        forall|h: u32| v0.pending.dom().contains(h)
            && !keep_entry(v0.router, h, (#[trigger] v0.pending[h]).1, now)
            ==> exists|i: int| 0 <= i < comps.len() && (#[trigger] comps[i]).handle.0 == h,
{
    assert forall|h: u32| v0.pending.dom().contains(h)
        && !keep_entry(v0.router, h, (#[trigger] v0.pending[h]).1, now)
        implies exists|i: int| 0 <= i < comps.len()
            && (#[trigger] comps[i]).handle.0 == h by {
        let j = choose|j: int| 0 <= j < entries.len() && (#[trigger] entries[j]).0 == h;
        assert(comps[wit[h]].handle.0 == h);
    }
}

/// Popping one handle's inbox does not depend on the router's clock.
proof fn lemma_recv_now_irrelevant(rv: RouterView, now: u64, h: u32)
    ensures
        recv_spec((RouterView { now, ..rv }), h).1 == recv_spec(rv, h).1,
{
}

/// Popping one handle's inbox leaves every other handle's verdict alone.
proof fn lemma_recv_other_handles(rv: RouterView, h: u32)
    requires
        rv.reqs.len() == crate::router::MAX_REQUESTS,
        rv.listeners.len() == crate::router::MAX_LISTENERS,
    ensures
        forall|h2: u32| h2 != h
            ==> #[trigger] recv_spec(recv_spec(rv, h).0, h2).1 == recv_spec(rv, h2).1,
{
    let rv2 = recv_spec(rv, h).0;
    assert forall|h2: u32| h2 != h
        implies #[trigger] recv_spec(rv2, h2).1 == recv_spec(rv, h2).1 by {
        if is_req_handle(h2) {
            assert(rv2.reqs[h2 as int] == rv.reqs[h2 as int]);
        } else if is_listener_handle(h2) {
            assert(rv2.listeners[crate::router::listener_index(h2)]
                == rv.listeners[crate::router::listener_index(h2)]);
        }
    }
}

/// Law: the nearest-deadline verdict is unique — two sweeps over the same
/// table at the same time report the same wait.
pub proof fn lemma_next_deadline_unique(p: Map<u32, (u32, u64)>, now: u64, r1: u64, r2: u64)
    requires
        is_next_deadline(p, now, r1),
        is_next_deadline(p, now, r2),
    ensures
        r1 == r2,
{
}

/// Law: `update` is idempotent.  When a sweep finds no message and no
/// expired deadline, it changes nothing; sweeping the swept table again at
/// the same time keeps it identical, and the nearest deadline reported is
/// the same both times.
pub proof fn lemma_update_idempotent(v: ServerView, now: u64)
    requires
        quiet(v, now),
    ensures
        swept_pending(v, now) =~= v.pending,
        ({
            let v2 = ServerView {
                router: RouterView { now, ..v.router },
                pending: swept_pending(v, now),
            };
            swept_pending(v2, now) =~= v.pending
        }),
{
    let v2 = ServerView {
        router: RouterView { now, ..v.router },
        pending: swept_pending(v, now),
    };
    assert forall|h: u32| v.pending.dom().contains(h)
        implies keep_entry(v2.router, h, v.pending[h].1, now) by {
        lemma_recv_now_irrelevant(v.router, now, h);
    }
}

/// Law: the timeout boundary.  An outstanding call with deadline `d != 0`
/// and no message pending stays outstanding through any sweep strictly
/// before `d`, and is removed — timed out — by a sweep at or after `d`.
pub proof fn lemma_timeout_boundary(v: ServerView, h: u32, now: u64)
    requires
        v.pending.dom().contains(h),
        v.pending[h].1 != 0,
        recv_spec(v.router, h).1 is None,
    ensures
        now < v.pending[h].1 ==> swept_pending(v, now).dom().contains(h)
            && swept_pending(v, now)[h] == v.pending[h],
        now >= v.pending[h].1 ==> !swept_pending(v, now).dom().contains(h),
{
}

} // verus!
