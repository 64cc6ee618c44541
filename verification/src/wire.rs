//! On-wire packet framing for the MCTP transport.
//!
//! Every packet is a fixed header followed by a chunk of message payload.
//! The header spends one byte per field, which keeps the format easy to
//! decode and to reason about: destination and source EID, the
//! start/end-of-message flags, the tag-owner and integrity-check bits, a
//! two-bit sequence counter, the three-bit tag, the message type, and the
//! total length of the message being carried, as a little-endian `u64`.

use vstd::prelude::*;
use vstd::bytes::{spec_u64_to_le_bytes, spec_u64_from_le_bytes, u64_to_le_bytes, u64_from_le_bytes, lemma_auto_spec_u64_to_from_le_bytes};

verus! {

/// Number of framing bytes at the start of every packet.
pub const HEADER_LEN: usize = 17;

/// Sequence numbers wrap modulo this value.
pub const SEQ_MOD: u8 = 4;

/// Tag values are three bits wide: they wrap modulo this value.
pub const TAG_MOD: u8 = 8;

/// The decoded framing of one packet.
#[derive(Clone, Copy, Debug, PartialEq, Eq, Structural)]
pub struct Header {
    /// Destination endpoint ID.
    pub dest: u8,
    /// Source endpoint ID.
    pub src: u8,
    /// Start of message: set on the first fragment.
    pub som: bool,
    /// End of message: set on the last fragment.
    pub eom: bool,
    /// Whether the tag belongs to the sender of this packet.
    pub tag_owned: bool,
    /// Integrity-check flag, carried through unchanged.
    pub ic: bool,
    /// Fragment sequence number, wraps modulo `SEQ_MOD`.
    pub seq: u8,
    /// Exchange tag, below `TAG_MOD`.
    pub tag: u8,
    /// Message type of the carried message.
    pub msg_type: u8,
    /// Total payload length of the whole message.
    pub total_len: u64,
}

/// A header whose bounded fields are in range.
pub open spec fn header_wf(h: Header) -> bool {
    h.seq < SEQ_MOD && h.tag < TAG_MOD
}

/// A flag byte: 1 for true, 0 for false.
pub open spec fn bool_byte(b: bool) -> u8 {
    if b { 1 } else { 0 }
}

/// The bytes of a packet with header `h` and payload chunk `chunk`.
pub open spec fn spec_encode(h: Header, chunk: Seq<u8>) -> Seq<u8> {
    seq![
        h.dest,
        h.src,
        bool_byte(h.som),
        bool_byte(h.eom),
        bool_byte(h.tag_owned),
        bool_byte(h.ic),
        h.seq,
        h.tag,
        h.msg_type,
    ] + spec_u64_to_le_bytes(h.total_len) + chunk
}

/// The header and chunk a byte string decodes to, or `None` where the bytes
/// are too short or a bounded field is out of range.
pub open spec fn spec_decode(bytes: Seq<u8>) -> Option<(Header, Seq<u8>)> {
    if bytes.len() >= HEADER_LEN
        && bytes[2] <= 1 && bytes[3] <= 1 && bytes[4] <= 1 && bytes[5] <= 1
        && bytes[6] < SEQ_MOD && bytes[7] < TAG_MOD
    {
        let h = Header {
            dest: bytes[0],
            src: bytes[1],
            som: bytes[2] == 1,
            eom: bytes[3] == 1,
            tag_owned: bytes[4] == 1,
            ic: bytes[5] == 1,
            seq: bytes[6],
            tag: bytes[7],
            msg_type: bytes[8],
            total_len: spec_u64_from_le_bytes(bytes.subrange(9, HEADER_LEN as int)),
        };
        Some((h, bytes.skip(HEADER_LEN as int)))
    } else {
        None
    }
}

/// Builds the wire bytes of one packet.
pub fn encode_packet(h: &Header, chunk: &[u8]) -> (out: Vec<u8>)
    requires
        header_wf(*h),
        chunk@.len() + HEADER_LEN <= usize::MAX,
    ensures
        out@ == spec_encode(*h, chunk@),
        out@.len() == HEADER_LEN + chunk@.len(),
{
    let mut out: Vec<u8> = Vec::new();
    out.push(h.dest);
    out.push(h.src);
    out.push(if h.som { 1 } else { 0 });
    out.push(if h.eom { 1 } else { 0 });
    out.push(if h.tag_owned { 1 } else { 0 });
    out.push(if h.ic { 1 } else { 0 });
    out.push(h.seq);
    out.push(h.tag);
    out.push(h.msg_type);
    let len_bytes = u64_to_le_bytes(h.total_len);
    let mut i: usize = 0;
    while i < len_bytes.len()
        invariant
            i <= len_bytes.len(),
            len_bytes@ == spec_u64_to_le_bytes(h.total_len),
            len_bytes@.len() == 8,
            out@ =~= spec_encode(*h, Seq::<u8>::empty()).take(9 + i as int),
        decreases len_bytes.len() - i,
    {
        out.push(len_bytes[i]);
        i += 1;
    }
    let mut j: usize = 0;
    while j < chunk.len()
        invariant
            j <= chunk@.len(),
            out@ =~= spec_encode(*h, chunk@.take(j as int)),
        decreases chunk@.len() - j,
    {
        out.push(chunk[j]);
        j += 1;
    }
    proof {
        assert(chunk@.take(chunk@.len() as int) =~= chunk@);
        assert(out@ =~= spec_encode(*h, chunk@));
    }
    out
}

/// Parses the wire bytes of one packet into its header and payload chunk.
pub fn decode_packet(bytes: &[u8]) -> (r: Option<(Header, Vec<u8>)>)
    ensures
        match r {
            Some((h, chunk)) => spec_decode(bytes@) == Some((h, chunk@)) && header_wf(h),
            None => spec_decode(bytes@) is None,
        },
{
    if bytes.len() < HEADER_LEN {
        return None;
    }
    if bytes[2] > 1 || bytes[3] > 1 || bytes[4] > 1 || bytes[5] > 1 {
        return None;
    }
    if bytes[6] >= SEQ_MOD || bytes[7] >= TAG_MOD {
        return None;
    }
    let mut len_bytes: Vec<u8> = Vec::new();
    let mut i: usize = 9;
    while i < HEADER_LEN
        invariant
            9 <= i <= HEADER_LEN,
            bytes@.len() >= HEADER_LEN,
            len_bytes@ =~= bytes@.subrange(9, i as int),
        decreases HEADER_LEN - i,
    {
        len_bytes.push(bytes[i]);
        i += 1;
    }
    let total_len = u64_from_le_bytes(len_bytes.as_slice());
    let h = Header {
        dest: bytes[0],
        src: bytes[1],
        som: bytes[2] == 1,
        eom: bytes[3] == 1,
        tag_owned: bytes[4] == 1,
        ic: bytes[5] == 1,
        seq: bytes[6],
        tag: bytes[7],
        msg_type: bytes[8],
        total_len,
    };
    let mut chunk: Vec<u8> = Vec::new();
    let mut j: usize = HEADER_LEN;
    while j < bytes.len()
        invariant
            HEADER_LEN <= j <= bytes@.len(),
            chunk@ =~= bytes@.subrange(HEADER_LEN as int, j as int),
        decreases bytes@.len() - j,
    {
        chunk.push(bytes[j]);
        j += 1;
    }
    proof {
        assert(chunk@ =~= bytes@.skip(HEADER_LEN as int));
    }
    Some((h, chunk))
}

/// Law: decoding an encoded packet gives back exactly the header and chunk
/// that were encoded.
pub proof fn lemma_encode_decode(h: Header, chunk: Seq<u8>)
    requires
        header_wf(h),
    ensures
        spec_decode(spec_encode(h, chunk)) == Some((h, chunk)),
{
    lemma_auto_spec_u64_to_from_le_bytes();
    let bytes = spec_encode(h, chunk);
    assert(bytes.subrange(9, HEADER_LEN as int) =~= spec_u64_to_le_bytes(h.total_len));
    assert(bytes.skip(HEADER_LEN as int) =~= chunk);
    let decoded = spec_decode(bytes).unwrap();
    assert(decoded.0 == h);
    assert(decoded.1 =~= chunk);
}

} // verus!
