//! Inbound reassembly: rebuilding whole messages from trains of packets.
//!
//! One `Reassembler` tracks a bounded number of in-flight inbound messages,
//! keyed by (source EID, tag, tag-owner bit).  A fragment that does not fit
//! the open message it continues — a sequence gap, a changed framing field,
//! too many bytes — is a framing error: the open message is dropped rather
//! than merged, and the stream resynchronizes on the next start-of-message.

use vstd::prelude::*;
use crate::wire::{Header, SEQ_MOD, header_wf};

verus! {

/// How many inbound messages may be in flight at once.
pub const MAX_REASSEMBLY: usize = 8;

/// One fully reassembled inbound message.
#[derive(Debug)]
pub struct MctpMessage {
    /// Source endpoint ID.
    pub source: u8,
    /// Destination endpoint ID.
    pub dest: u8,
    /// Message type.
    pub msg_type: u8,
    /// Integrity-check flag.
    pub ic: bool,
    /// Exchange tag.
    pub tag: u8,
    /// Whether the tag was owned by the message's sender.
    pub tag_owned: bool,
    /// The reassembled payload.
    pub payload: Vec<u8>,
}

/// The mathematical image of one message.
#[verifier::ext_equal]
pub ghost struct MsgView {
    pub source: u8,
    pub dest: u8,
    pub msg_type: u8,
    pub ic: bool,
    pub tag: u8,
    pub tag_owned: bool,
    pub payload: Seq<u8>,
}

impl View for MctpMessage {
    type V = MsgView;

    open spec fn view(&self) -> MsgView {
        MsgView {
            source: self.source,
            dest: self.dest,
            msg_type: self.msg_type,
            ic: self.ic,
            tag: self.tag,
            tag_owned: self.tag_owned,
            payload: self.payload@,
        }
    }
}

/// The state of one in-flight inbound message.
pub struct ReasmState {
    /// Source endpoint ID, part of the key.
    pub src: u8,
    /// Exchange tag, part of the key.
    pub tag: u8,
    /// Tag-owner bit, part of the key.
    pub tag_owned: bool,
    /// Destination the first fragment named.
    pub dest: u8,
    /// Message type the first fragment named.
    pub msg_type: u8,
    /// Integrity-check flag the first fragment named.
    pub ic: bool,
    /// Total message length the fragments advertise.
    pub total_len: u64,
    /// The sequence number the next fragment must carry.
    pub next_seq: u8,
    /// Payload bytes received so far.
    pub data: Vec<u8>,
}

/// The mathematical image of one in-flight message.
#[verifier::ext_equal]
pub ghost struct ReasmView {
    pub src: u8,
    pub tag: u8,
    pub tag_owned: bool,
    pub dest: u8,
    pub msg_type: u8,
    pub ic: bool,
    pub total_len: u64,
    pub next_seq: u8,
    pub data: Seq<u8>,
}

impl View for ReasmState {
    type V = ReasmView;

    open spec fn view(&self) -> ReasmView {
        ReasmView {
            src: self.src,
            tag: self.tag,
            tag_owned: self.tag_owned,
            dest: self.dest,
            msg_type: self.msg_type,
            ic: self.ic,
            total_len: self.total_len,
            next_seq: self.next_seq,
            data: self.data@,
        }
    }
}

/// Whether a slot holds an in-flight message with the given key.
pub open spec fn slot_matches(s: Option<ReasmView>, src: u8, tag: u8, owned: bool) -> bool {
    match s {
        Some(st) => st.src == src && st.tag == tag && st.tag_owned == owned,
        None => false,
    }
}

/// The first slot holding the given key, if any.
pub open spec fn find_slot(slots: Seq<Option<ReasmView>>, src: u8, tag: u8, owned: bool) -> Option<int>
    decreases slots.len(),
{
    if slots.len() == 0 {
        None
    } else if slot_matches(slots[0], src, tag, owned) {
        Some(0)
    } else {
        match find_slot(slots.drop_first(), src, tag, owned) {
            Some(i) => Some(i + 1),
            None => None,
        }
    }
}

/// The first empty slot, if any.
pub open spec fn find_free(slots: Seq<Option<ReasmView>>) -> Option<int>
    decreases slots.len(),
{
    if slots.len() == 0 {
        None
    } else if slots[0] is None {
        Some(0)
    } else {
        match find_free(slots.drop_first()) {
            Some(i) => Some(i + 1),
            None => None,
        }
    }
}

/// `find_slot` returns exactly the first index whose slot holds the key.
pub proof fn lemma_find_slot_props(slots: Seq<Option<ReasmView>>, src: u8, tag: u8, owned: bool)
    ensures
        match find_slot(slots, src, tag, owned) {
            Some(i) => 0 <= i < slots.len() && slot_matches(slots[i], src, tag, owned)
                && forall|j: int| 0 <= j < i ==> !slot_matches(slots[j], src, tag, owned),
            None => forall|j: int| 0 <= j < slots.len() ==> !slot_matches(slots[j], src, tag, owned),
        },
    decreases slots.len(),
{
    if slots.len() > 0 {
        let rest = slots.drop_first();
        lemma_find_slot_props(rest, src, tag, owned);
        if !slot_matches(slots[0], src, tag, owned) {
            match find_slot(rest, src, tag, owned) {
                Some(i) => {
                    assert(rest[i] == slots[i + 1]);
                    assert forall|j: int| 0 <= j < i + 1 implies !slot_matches(slots[j], src, tag, owned) by {
                        if j > 0 {
                            assert(rest[j - 1] == slots[j]);
                        }
                    }
                }
                None => {
                    assert forall|j: int| 0 <= j < slots.len() implies !slot_matches(slots[j], src, tag, owned) by {
                        if j > 0 {
                            assert(rest[j - 1] == slots[j]);
                        }
                    }
                }
            }
        }
    }
}

/// `find_free` returns exactly the first empty slot.
pub proof fn lemma_find_free_props(slots: Seq<Option<ReasmView>>)
    ensures
        match find_free(slots) {
            Some(i) => 0 <= i < slots.len() && slots[i] is None
                && forall|j: int| 0 <= j < i ==> slots[j] is Some,
            None => forall|j: int| 0 <= j < slots.len() ==> slots[j] is Some,
        },
    decreases slots.len(),
{
    if slots.len() > 0 {
        let rest = slots.drop_first();
        lemma_find_free_props(rest);
        if slots[0] is Some {
            match find_free(rest) {
                Some(i) => {
                    assert(rest[i] == slots[i + 1]);
                    assert forall|j: int| 0 <= j < i + 1 implies slots[j] is Some by {
                        if j > 0 {
                            assert(rest[j - 1] == slots[j]);
                        }
                    }
                }
                None => {
                    assert forall|j: int| 0 <= j < slots.len() implies slots[j] is Some by {
                        if j > 0 {
                            assert(rest[j - 1] == slots[j]);
                        }
                    }
                }
            }
        }
    }
}

/// The slot contents after any open message with the given key is dropped.
pub open spec fn clear_key(slots: Seq<Option<ReasmView>>, src: u8, tag: u8, owned: bool) -> Seq<Option<ReasmView>> {
    match find_slot(slots, src, tag, owned) {
        Some(i) => slots.update(i, None),
        None => slots,
    }
}

/// The fresh in-flight state a start-of-message fragment opens.
pub open spec fn opened_state(h: Header, chunk: Seq<u8>) -> ReasmView {
    ReasmView {
        src: h.src,
        tag: h.tag,
        tag_owned: h.tag_owned,
        dest: h.dest,
        msg_type: h.msg_type,
        ic: h.ic,
        total_len: h.total_len,
        next_seq: ((h.seq + 1) % (SEQ_MOD as int)) as u8,
        data: chunk,
    }
}

/// The message a finished in-flight state delivers.
pub open spec fn state_message(st: ReasmView, payload: Seq<u8>) -> MsgView {
    MsgView {
        source: st.src,
        dest: st.dest,
        msg_type: st.msg_type,
        ic: st.ic,
        tag: st.tag,
        tag_owned: st.tag_owned,
        payload,
    }
}

/// What absorbing one fragment does to the slot table, and what it yields:
/// `Ok(Some(m))` when the fragment finishes a message, `Ok(None)` when it was
/// accepted and the message stays open, `Err(())` on a framing error.
pub open spec fn absorb_spec(slots: Seq<Option<ReasmView>>, h: Header, chunk: Seq<u8>)
    -> (Seq<Option<ReasmView>>, Result<Option<MsgView>, ()>)
{
    if h.som {
        let cleared = clear_key(slots, h.src, h.tag, h.tag_owned);
        if chunk.len() > h.total_len {
            (cleared, Err(()))
        } else if h.eom {
            if chunk.len() == h.total_len {
                (cleared, Ok(Some(state_message(opened_state(h, chunk), chunk))))
            } else {
                (cleared, Err(()))
            }
        } else {
            match find_slot(slots, h.src, h.tag, h.tag_owned) {
                Some(i) => (slots.update(i, Some(opened_state(h, chunk))), Ok(None)),
                None => match find_free(slots) {
                    Some(i) => (slots.update(i, Some(opened_state(h, chunk))), Ok(None)),
                    None => (slots, Err(())),
                },
            }
        }
    } else {
        match find_slot(slots, h.src, h.tag, h.tag_owned) {
            None => (slots, Err(())),
            Some(i) => {
                let st = slots[i]->Some_0;
                if h.seq != st.next_seq || h.msg_type != st.msg_type || h.ic != st.ic
                    || h.total_len != st.total_len || h.dest != st.dest {
                    (slots.update(i, None), Err(()))
                } else if st.data.len() + chunk.len() > st.total_len {
                    (slots.update(i, None), Err(()))
                } else if h.eom {
                    if st.data.len() + chunk.len() == st.total_len {
                        (slots.update(i, None), Ok(Some(state_message(st, st.data + chunk))))
                    } else {
                        (slots.update(i, None), Err(()))
                    }
                } else {
                    (slots.update(i, Some(ReasmView {
                        next_seq: ((h.seq + 1) % (SEQ_MOD as int)) as u8,
                        data: st.data + chunk,
                        ..st
                    })), Ok(None))
                }
            },
        }
    }
}

/// Rebuilds inbound messages from their fragments.
pub struct Reassembler {
    /// In-flight messages; the length stays `MAX_REASSEMBLY`.
    pub slots: Vec<Option<ReasmState>>,
}

impl View for Reassembler {
    type V = Seq<Option<ReasmView>>;

    open spec fn view(&self) -> Seq<Option<ReasmView>> {
        Seq::new(self.slots@.len(), |i: int| match self.slots@[i] {
            Some(st) => Some(st@),
            None => None,
        })
    }
}

impl Reassembler {
    /// The slot table keeps its fixed size.
    pub open spec fn wf(self) -> bool {
        self.slots@.len() == MAX_REASSEMBLY
    }

    /// An empty reassembler with no message in flight.
    pub fn new() -> (r: Reassembler)
        ensures
            r.wf(),
            forall|i: int| 0 <= i < r@.len() ==> r@[i] is None,
    {
        let mut slots: Vec<Option<ReasmState>> = Vec::new();
        let mut i: usize = 0;
        while i < MAX_REASSEMBLY
            invariant
                i <= MAX_REASSEMBLY,
                slots@.len() == i,
                forall|j: int| 0 <= j < i ==> slots@[j] is None,
            decreases MAX_REASSEMBLY - i,
        {
            slots.push(None);
            i += 1;
        }
        Reassembler { slots }
    }

    /// Finds the first slot holding the given key.
    fn find_key_index(&self, src: u8, tag: u8, owned: bool) -> (r: Option<usize>)
        ensures
            r matches Some(i) ==> i < self.slots@.len()
                && find_slot(self@, src, tag, owned) == Some(i as int)
                && self@[i as int] is Some,
            r is None ==> find_slot(self@, src, tag, owned) is None,
    {
        proof {
            lemma_find_slot_props(self@, src, tag, owned);
        }
        let mut i: usize = 0;
        while i < self.slots.len()
            invariant
                i <= self.slots@.len(),
                forall|j: int| 0 <= j < i ==> !slot_matches(self@[j], src, tag, owned),
                self@.len() == self.slots@.len(),
            decreases self.slots@.len() - i,
        {
            match &self.slots[i] {
                Some(st) => {
                    if st.src == src && st.tag == tag && st.tag_owned == owned {
                        proof {
                            lemma_find_slot_first(self@, src, tag, owned, i as int);
                        }
                        return Some(i);
                    }
                }
                None => {}
            }
            i += 1;
        }
        None
    }

    /// Finds the first empty slot.
    fn find_free_index(&self) -> (r: Option<usize>)
        ensures
            r matches Some(i) ==> i < self.slots@.len() && find_free(self@) == Some(i as int),
            r is None ==> find_free(self@) is None,
    {
        proof {
            lemma_find_free_props(self@);
        }
        let mut i: usize = 0;
        while i < self.slots.len()
            invariant
                i <= self.slots@.len(),
                forall|j: int| 0 <= j < i ==> self@[j] is Some,
                self@.len() == self.slots@.len(),
            decreases self.slots@.len() - i,
        {
            if self.slots[i].is_none() {
                proof {
                    lemma_find_free_first(self@, i as int);
                }
                return Some(i);
            }
            i += 1;
        }
        None
    }

    /// Absorbs one decoded fragment; see [`absorb_spec`] for the exact
    /// behaviour.
    pub fn absorb(&mut self, h: &Header, chunk: &[u8]) -> (r: Result<Option<MctpMessage>, ()>)
        requires
            old(self).wf(),
            header_wf(*h),
        ensures
            final(self).wf(),
            ({
                let (slots2, rr) = absorb_spec(old(self)@, *h, chunk@);
                &&& final(self)@ =~= slots2
                &&& match (r, rr) {
                    (Ok(Some(m)), Ok(Some(mv))) => m@ == mv,
                    (Ok(None), Ok(None)) => true,
                    (Err(()), Err(())) => true,
                    _ => false,
                }
            }),
    {
        let ghost slots0 = self@;
        if h.som {
            let existing = self.find_key_index(h.src, h.tag, h.tag_owned);
            if chunk.len() as u64 > h.total_len {
                if let Some(i) = existing {
                    self.slots.set(i, None);
                }
                return Err(());
            }
            if h.eom {
                if chunk.len() as u64 == h.total_len {
                    if let Some(i) = existing {
                        self.slots.set(i, None);
                    }
                    let msg = MctpMessage {
                        source: h.src,
                        dest: h.dest,
                        msg_type: h.msg_type,
                        ic: h.ic,
                        tag: h.tag,
                        tag_owned: h.tag_owned,
                        payload: vstd::slice::slice_to_vec(chunk),
                    };
                    return Ok(Some(msg));
                } else {
                    if let Some(i) = existing {
                        self.slots.set(i, None);
                    }
                    return Err(());
                }
            }
            let at = match existing {
                Some(i) => Some(i),
                None => self.find_free_index(),
            };
            match at {
                Some(i) => {
                    let st = ReasmState {
                        src: h.src,
                        tag: h.tag,
                        tag_owned: h.tag_owned,
                        dest: h.dest,
                        msg_type: h.msg_type,
                        ic: h.ic,
                        total_len: h.total_len,
                        next_seq: (h.seq + 1) % SEQ_MOD,
                        data: vstd::slice::slice_to_vec(chunk),
                    };
                    self.slots.set(i, Some(st));
                    Ok(None)
                }
                None => Err(()),
            }
        } else {
            let at = self.find_key_index(h.src, h.tag, h.tag_owned);
            match at {
                None => Err(()),
                Some(i) => {
                    let st = self.slots[i].as_ref().unwrap();
                    let mismatch = h.seq != st.next_seq || h.msg_type != st.msg_type
                        || h.ic != st.ic || h.total_len != st.total_len || h.dest != st.dest;
                    let too_big = chunk.len() as u64 > st.total_len
                        || st.data.len() as u64 > st.total_len - chunk.len() as u64;
                    if mismatch || too_big {
                        self.slots.set(i, None);
                        return Err(());
                    }
                    let mut new_data = vstd::slice::slice_to_vec(st.data.as_slice());
                    append_slice(&mut new_data, chunk);
                    proof {
                        assert(new_data@ == slots0[i as int]->Some_0.data + chunk@);
                    }
                    if h.eom {
                        if new_data.len() as u64 == st.total_len {
                            let msg = MctpMessage {
                                source: st.src,
                                dest: st.dest,
                                msg_type: st.msg_type,
                                ic: st.ic,
                                tag: st.tag,
                                tag_owned: st.tag_owned,
                                payload: new_data,
                            };
                            self.slots.set(i, None);
                            Ok(Some(msg))
                        } else {
                            self.slots.set(i, None);
                            Err(())
                        }
                    } else {
                        let new_st = ReasmState {
                            src: st.src,
                            tag: st.tag,
                            tag_owned: st.tag_owned,
                            dest: st.dest,
                            msg_type: st.msg_type,
                            ic: st.ic,
                            total_len: st.total_len,
                            next_seq: (h.seq + 1) % SEQ_MOD,
                            data: new_data,
                        };
                        self.slots.set(i, Some(new_st));
                        Ok(None)
                    }
                }
            }
        }
    }
}

/// If slot `i` holds the key and no earlier slot does, it is the one
/// `find_slot` names.
pub proof fn lemma_find_slot_first(slots: Seq<Option<ReasmView>>, src: u8, tag: u8, owned: bool, i: int)
    requires
        0 <= i < slots.len(),
        slot_matches(slots[i], src, tag, owned),
        forall|j: int| 0 <= j < i ==> !slot_matches(slots[j], src, tag, owned),
    ensures
        find_slot(slots, src, tag, owned) == Some(i),
    decreases slots.len(),
{
    if i > 0 {
        let rest = slots.drop_first();
        assert forall|j: int| 0 <= j < i - 1 implies !slot_matches(rest[j], src, tag, owned) by {
            assert(rest[j] == slots[j + 1]);
        }
        assert(rest[i - 1] == slots[i]);
        lemma_find_slot_first(rest, src, tag, owned, i - 1);
    }
}

/// If slot `i` is empty and no earlier slot is, it is the one `find_free`
/// names.
pub proof fn lemma_find_free_first(slots: Seq<Option<ReasmView>>, i: int)
    requires
        0 <= i < slots.len(),
        slots[i] is None,
        forall|j: int| 0 <= j < i ==> slots[j] is Some,
    ensures
        find_free(slots) == Some(i),
    decreases slots.len(),
{
    if i > 0 {
        let rest = slots.drop_first();
        assert forall|j: int| 0 <= j < i - 1 implies rest[j] is Some by {
            assert(rest[j] == slots[j + 1]);
        }
        assert(rest[i - 1] == slots[i]);
        lemma_find_free_first(rest, i - 1);
    }
}

/// Appends the bytes of a slice to a vector.
fn append_slice(dst: &mut Vec<u8>, src: &[u8])
    ensures
        final(dst)@ == old(dst)@ + src@,
{
    let mut i: usize = 0;
    while i < src.len()
        invariant
            i <= src@.len(),
            dst@ =~= old(dst)@ + src@.take(i as int),
        decreases src@.len() - i,
    {
        dst.push(src[i]);
        i += 1;
    }
    proof {
        assert(src@.take(src@.len() as int) =~= src@);
        assert(dst@ =~= old(dst)@ + src@);
    }
}

} // verus!
