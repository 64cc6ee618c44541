//! Outbound fragmentation: splitting one message payload into a train of
//! MTU-bounded packets.
//!
//! A `Fragmenter` is driven iterator-style: each call to [`Fragmenter::fragment`]
//! with the same payload produces the next packet, until it reports
//! completion.  The MTU counts payload bytes per packet; every packet adds
//! the fixed header on top.

use vstd::prelude::*;
use crate::wire::{Header, HEADER_LEN, SEQ_MOD, TAG_MOD, spec_encode, encode_packet};
use crate::proto::Tag;

verus! {

/// The payload chunks of a message, in order: full `mtu`-sized chunks
/// followed by one final chunk of whatever remains.  An empty payload still
/// yields one (empty) chunk, so that every message is carried by at least
/// one packet.
pub open spec fn spec_chunks(payload: Seq<u8>, mtu: nat) -> Seq<Seq<u8>>
    recommends
        mtu >= 1,
    decreases payload.len(),
    when mtu >= 1
{
    if payload.len() <= mtu {
        seq![payload]
    } else {
        seq![payload.take(mtu as int)] + spec_chunks(payload.skip(mtu as int), mtu)
    }
}

/// How many packets a payload of length `len` fragments into.
pub open spec fn chunk_count(payload: Seq<u8>, mtu: nat) -> nat {
    spec_chunks(payload, mtu).len()
}

/// The fixed per-message framing values of one fragment train.
#[derive(Clone, Copy, Debug, PartialEq, Eq, Structural)]
pub struct FragSetup {
    /// Destination endpoint ID.
    pub dest: u8,
    /// Source endpoint ID.
    pub src: u8,
    /// Exchange tag, below `TAG_MOD`.
    pub tag: u8,
    /// Whether the tag is owned by this sender.
    pub tag_owned: bool,
    /// Integrity-check flag.
    pub ic: bool,
    /// Message type.
    pub msg_type: u8,
}

/// The header of the `i`-th packet of a fragment train.
pub open spec fn spec_header_at(setup: FragSetup, payload: Seq<u8>, mtu: nat, i: int) -> Header {
    Header {
        dest: setup.dest,
        src: setup.src,
        som: i == 0,
        eom: i + 1 == chunk_count(payload, mtu),
        tag_owned: setup.tag_owned,
        ic: setup.ic,
        seq: (i % (SEQ_MOD as int)) as u8,
        tag: setup.tag,
        msg_type: setup.msg_type,
        total_len: payload.len() as u64,
    }
}

/// The full wire bytes of the `i`-th packet of a fragment train.
pub open spec fn spec_packet_at(setup: FragSetup, payload: Seq<u8>, mtu: nat, i: int) -> Seq<u8> {
    spec_encode(spec_header_at(setup, payload, mtu, i), spec_chunks(payload, mtu)[i])
}

/// All packets of a fragment train, in emission order.
pub open spec fn spec_packets(setup: FragSetup, payload: Seq<u8>, mtu: nat) -> Seq<Seq<u8>> {
    Seq::new(chunk_count(payload, mtu), |i: int| spec_packet_at(setup, payload, mtu, i))
}

/// Facts about the chunk decomposition, proved by induction over the
/// fragment index: each chunk is the corresponding subrange of the payload,
/// the last chunk is the one that reaches the end of the payload, and every
/// chunk start lies within the payload.
pub proof fn lemma_chunks_facts(payload: Seq<u8>, mtu: nat, i: nat)
    requires
        mtu >= 1,
        i < chunk_count(payload, mtu),
    ensures
        i * mtu <= payload.len(),
        spec_chunks(payload, mtu)[i as int] =~= payload.subrange(
            (i * mtu) as int,
            if payload.len() <= (i + 1) * mtu { payload.len() as int } else { ((i + 1) * mtu) as int },
        ),
        (i + 1 == chunk_count(payload, mtu)) <==> payload.len() <= (i + 1) * mtu,
    decreases i,
{
    assert((i + 1) * mtu == i * mtu + mtu) by (nonlinear_arith);
    if payload.len() <= mtu {
        assert(chunk_count(payload, mtu) == 1);
        assert(i == 0);
        assert(i * mtu == 0) by (nonlinear_arith)
            requires i == 0,
        ;
        assert(spec_chunks(payload, mtu)[0] == payload);
        assert(payload.subrange(0, payload.len() as int) =~= payload);
    } else {
        let rest = payload.skip(mtu as int);
        lemma_chunk_count_at_least_one(rest, mtu);
        assert(chunk_count(payload, mtu) == 1 + chunk_count(rest, mtu));
        if i == 0 {
            assert(i * mtu == 0) by (nonlinear_arith)
                requires i == 0,
            ;
            assert(spec_chunks(payload, mtu)[0] == payload.take(mtu as int));
            assert(payload.take(mtu as int) =~= payload.subrange(0, mtu as int));
        } else {
            let j = (i - 1) as nat;
            lemma_chunks_facts(rest, mtu, j);
            assert((j + 1) * mtu == j * mtu + mtu) by (nonlinear_arith);
            assert(j + 1 == i);
            assert((j + 1) * mtu == i * mtu) by (nonlinear_arith)
                requires j + 1 == i,
            ;
            assert(i * mtu == j * mtu + mtu);
            assert(i * mtu <= payload.len());
            assert(spec_chunks(payload, mtu)[i as int] == spec_chunks(rest, mtu)[j as int]);
            let hi_rest: int = if rest.len() <= (j + 1) * mtu { rest.len() as int } else { ((j + 1) * mtu) as int };
            let hi: int = if payload.len() <= (i + 1) * mtu { payload.len() as int } else { ((i + 1) * mtu) as int };
            assert(hi == hi_rest + mtu);
            assert(spec_chunks(rest, mtu)[j as int] =~= rest.subrange((j * mtu) as int, hi_rest));
            assert(rest.subrange((j * mtu) as int, hi_rest) =~= payload.subrange((i * mtu) as int, hi));
            assert((i + 1 == chunk_count(payload, mtu)) <==> (j + 1 == chunk_count(rest, mtu)));
            assert((j + 1 == chunk_count(rest, mtu)) <==> rest.len() <= (j + 1) * mtu);
            assert(rest.len() <= (j + 1) * mtu <==> payload.len() <= (i + 1) * mtu);
        }
    }
}

/// A fragment train never has more packets than payload bytes, except that
/// an empty payload still takes one packet.
pub proof fn lemma_chunk_count_le(payload: Seq<u8>, mtu: nat)
    requires
        mtu >= 1,
    ensures
        payload.len() == 0 ==> chunk_count(payload, mtu) == 1,
        payload.len() >= 1 ==> chunk_count(payload, mtu) <= payload.len(),
    decreases payload.len(),
{
    if payload.len() > mtu {
        lemma_chunk_count_le(payload.skip(mtu as int), mtu);
    }
}

/// Every fragment train has at least one packet.
pub proof fn lemma_chunk_count_at_least_one(payload: Seq<u8>, mtu: nat)
    requires
        mtu >= 1,
    ensures
        chunk_count(payload, mtu) >= 1,
{
}

/// What one `fragment` call hands back: the next packet, or completion with
/// the exchange tag once every packet has been produced.
#[derive(Debug)]
pub enum SendOutput {
    Packet(Vec<u8>),
    Complete { tag: Tag },
}

/// Splits one payload into packets, one per call.
pub struct Fragmenter {
    /// Per-message framing values.
    pub setup: FragSetup,
    /// Payload bytes per packet.
    pub mtu: usize,
    /// Packets produced so far.
    pub count: usize,
    /// Payload bytes consumed so far.
    pub offset: usize,
    /// Whether the final packet has been produced.
    pub done: bool,
}

impl Fragmenter {
    /// Well-formedness against the payload this fragmenter is walking.
    pub open spec fn wf(self, payload: Seq<u8>) -> bool {
        &&& self.mtu >= 1
        &&& self.mtu + HEADER_LEN <= usize::MAX
        &&& self.setup.tag < TAG_MOD
        &&& payload.len() <= u64::MAX
        &&& if self.done {
                self.count == chunk_count(payload, self.mtu as nat) && self.offset == payload.len()
            } else {
                &&& self.count < chunk_count(payload, self.mtu as nat)
                &&& self.offset == self.count * self.mtu
            }
    }

    /// Starts a fragment train over a payload.
    pub fn new(setup: FragSetup, mtu: usize) -> (f: Fragmenter)
        requires
            1 <= mtu,
            mtu + HEADER_LEN <= usize::MAX,
            setup.tag < TAG_MOD,
        ensures
            f == (Fragmenter { setup, mtu, count: 0, offset: 0, done: false }),
    {
        Fragmenter { setup, mtu, count: 0, offset: 0, done: false }
    }

    /// Produces the next packet of the train, or reports completion.
    ///
    /// Calls must keep handing in the same payload; the fragmenter walks it
    /// front to back.
    pub fn fragment(&mut self, payload: &[u8]) -> (r: SendOutput)
        requires
            old(self).wf(payload@),
        ensures
            final(self).wf(payload@),
            final(self).setup == old(self).setup,
            final(self).mtu == old(self).mtu,
            old(self).done ==> *final(self) == *old(self)
                && (r matches SendOutput::Complete { tag }
                    && tag == (if old(self).setup.tag_owned {
                        Tag::Owned(old(self).setup.tag)
                    } else {
                        Tag::Unowned(old(self).setup.tag)
                    })),
            !old(self).done ==> {
                &&& r matches SendOutput::Packet(p)
                    && p@ == spec_packets(old(self).setup, payload@, old(self).mtu as nat)[old(self).count as int]
                &&& final(self).count == old(self).count + 1
                &&& final(self).done <==> old(self).count + 1 == chunk_count(payload@, old(self).mtu as nat)
            },
    {
        if self.done {
            let tag = if self.setup.tag_owned {
                Tag::Owned(self.setup.tag)
            } else {
                Tag::Unowned(self.setup.tag)
            };
            return SendOutput::Complete { tag };
        }
        proof {
            lemma_chunks_facts(payload@, self.mtu as nat, self.count as nat);
            lemma_chunk_count_le(payload@, self.mtu as nat);
        }
        let remaining = payload.len() - self.offset;
        let chunk_len = if remaining < self.mtu { remaining } else { self.mtu };
        let new_offset = self.offset + chunk_len;
        let eom = new_offset == payload.len();
        let header = Header {
            dest: self.setup.dest,
            src: self.setup.src,
            som: self.offset == 0,
            eom,
            tag_owned: self.setup.tag_owned,
            ic: self.setup.ic,
            seq: (self.count % (SEQ_MOD as usize)) as u8,
            tag: self.setup.tag,
            msg_type: self.setup.msg_type,
            total_len: payload.len() as u64,
        };
        proof {
            assert((self.count as int + 1) * (self.mtu as int) == self.count as int * self.mtu as int
                + self.mtu as int) by (nonlinear_arith);
            assert(eom <==> self.count + 1 == chunk_count(payload@, self.mtu as nat));
            if self.count != 0 {
                assert(self.count * self.mtu >= self.mtu) by (nonlinear_arith)
                    requires
                        self.count >= 1,
                        self.mtu >= 1,
                ;
            } else {
                assert(self.count * self.mtu == 0) by (nonlinear_arith)
                    requires self.count == 0,
                ;
            }
            assert(self.count == 0 <==> self.offset == 0);
            assert(header == spec_header_at(self.setup, payload@, self.mtu as nat, self.count as int));
        }
        let chunk = vstd::slice::slice_subrange(payload, self.offset, new_offset);
        let pkt = encode_packet(&header, chunk);
        proof {
            assert(chunk@ =~= spec_chunks(payload@, self.mtu as nat)[self.count as int]);
        }
        self.count = self.count + 1;
        self.offset = new_offset;
        self.done = eom;
        SendOutput::Packet(pkt)
    }
}

} // verus!
