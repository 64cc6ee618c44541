//! Tests of the MCTP stack: framing, fragmentation, the router's channel
//! tables, and the server's outstanding-call handling.

use rot_stack::proto::{Eid, Tag, Error, GenericHandle};
use rot_stack::wire::{Header, HEADER_LEN, encode_packet, decode_packet};
use rot_stack::frag::{Fragmenter, FragSetup, SendOutput};
use rot_stack::reasm::Reassembler;
use rot_stack::router::{Router, MemSender, FailSender, NO_DEADLINE};
use rot_stack::server::{Server, ServerError, RecvOutcome, metadata_of};

fn resp_header(dest: u8, src: u8, msg_type: u8, tag: u8, payload_len: u64) -> Header {
    Header {
        dest,
        src,
        som: true,
        eom: true,
        tag_owned: false,
        ic: false,
        seq: 0,
        tag,
        msg_type,
        total_len: payload_len,
    }
}

#[test]
fn wire_roundtrip() {
    let h = Header {
        dest: 42,
        src: 8,
        som: true,
        eom: false,
        tag_owned: true,
        ic: true,
        seq: 3,
        tag: 5,
        msg_type: 1,
        total_len: 70000,
    };
    let bytes = encode_packet(&h, &[1, 2, 3]);
    assert_eq!(bytes.len(), HEADER_LEN + 3);
    let (h2, chunk) = decode_packet(&bytes).unwrap();
    assert_eq!(h2, h);
    assert_eq!(chunk, vec![1, 2, 3]);
    // a sequence value outside the wrap range does not decode
    let mut bad = bytes.clone();
    bad[6] = 4;
    assert!(decode_packet(&bad).is_none());
}

// Fragmentation round trip: a payload of three MTUs plus one byte goes out
// as exactly four packets, three full and one partial, and reassembling
// them in order reproduces the payload; a corrupted sequence number is a
// framing error, not corrupted data.
#[test]
fn fragmentation_roundtrip() {
    let mtu: usize = 4;
    let payload: Vec<u8> = (0..(3 * mtu as u8 + 1)).collect();
    let setup = FragSetup {
        dest: 42,
        src: 8,
        tag: 2,
        tag_owned: true,
        ic: false,
        msg_type: 1,
    };
    let mut fr = Fragmenter::new(setup, mtu);
    let mut packets: Vec<Vec<u8>> = Vec::new();
    loop {
        match fr.fragment(&payload) {
            SendOutput::Packet(p) => packets.push(p),
            SendOutput::Complete { tag } => {
                assert_eq!(tag, Tag::Owned(2));
                break;
            }
        }
    }
    assert_eq!(packets.len(), 4);
    for p in &packets[..3] {
        assert_eq!(p.len(), HEADER_LEN + mtu); // three full packets
    }
    assert_eq!(packets[3].len(), HEADER_LEN + 1); // one partial packet

    // in-order reassembly reproduces the payload exactly
    let mut re = Reassembler::new();
    let mut delivered = None;
    for p in &packets {
        let (h, chunk) = decode_packet(p).unwrap();
        if let Some(m) = re.absorb(&h, &chunk).unwrap() {
            delivered = Some(m);
        }
    }
    let m = delivered.unwrap();
    assert_eq!(m.payload, payload);
    assert_eq!(m.source, 8);
    assert_eq!(m.dest, 42);
    assert_eq!(m.tag, 2);
    assert!(m.tag_owned);

    // a corrupted sequence number aborts the message instead
    let mut re = Reassembler::new();
    let mut corrupted = packets.clone();
    corrupted[2][6] = (corrupted[2][6] + 1) % 4;
    let mut failed = false;
    for p in &corrupted {
        let (h, chunk) = decode_packet(p).unwrap();
        match re.absorb(&h, &chunk) {
            Ok(Some(_)) => panic!("corrupted train must not complete"),
            Ok(None) => {}
            Err(()) => {
                failed = true;
                break;
            }
        }
    }
    assert!(failed);
}

#[test]
fn empty_payload_takes_one_packet() {
    let setup = FragSetup {
        dest: 1,
        src: 2,
        tag: 0,
        tag_owned: true,
        ic: false,
        msg_type: 9,
    };
    let mut fr = Fragmenter::new(setup, 16);
    let payload: [u8; 0] = [];
    let p = match fr.fragment(&payload) {
        SendOutput::Packet(p) => p,
        _ => panic!("expected a packet"),
    };
    let (h, chunk) = decode_packet(&p).unwrap();
    assert!(h.som && h.eom);
    assert_eq!(chunk.len(), 0);
    assert!(matches!(fr.fragment(&payload), SendOutput::Complete { .. }));
}

// A second request when the table is full fails with NoSpace and corrupts
// no existing handle.
#[test]
fn req_table_full_returns_no_space() {
    let mut router = Router::new(Eid(42), 0, MemSender::new(64));
    let mut handles = Vec::new();
    for i in 0..8 {
        let h = router.req(Eid(8)).unwrap();
        assert_eq!(h.0, i);
        handles.push(h);
    }
    assert_eq!(router.req(Eid(8)), Err(Error::NoSpace));
    // the existing handles still work: each can still send
    let t = router
        .send(None, 1, None, false, handles[0], b"x")
        .unwrap();
    assert!(matches!(t, Tag::Owned(_)));
}

// A second listener for an active type is AddrInUse; after the first
// releases its handle, the type can be listened for again.
#[test]
fn listener_type_exclusive_until_released() {
    let mut router = Router::new(Eid(42), 0, MemSender::new(64));
    let h = router.listener(5).unwrap();
    assert_eq!(router.listener(5), Err(Error::AddrInUse));
    // another type is fine
    router.listener(1).unwrap();
    router.release(h).unwrap();
    let h2 = router.listener(5).unwrap();
    assert_eq!(h2.0, h.0);
}

#[test]
fn set_eid_validates() {
    let mut router = Router::new(Eid(42), 0, MemSender::new(64));
    assert_eq!(router.set_eid(Eid(0)), Err(Error::BadArgument));
    assert_eq!(router.set_eid(Eid(0xFF)), Err(Error::BadArgument));
    assert_eq!(router.set_eid(Eid(7)), Ok(()));
    assert_eq!(router.get_eid(), Eid(7));
}

#[test]
fn send_guards_one_exchange_per_channel() {
    let mut router = Router::new(Eid(42), 0, MemSender::new(64));
    let h = router.req(Eid(8)).unwrap();
    router.send(None, 1, None, false, h, b"ping").unwrap();
    // a second send before the response is received is refused
    assert_eq!(
        router.send(None, 1, None, false, h, b"again"),
        Err(Error::BadArgument)
    );
    // an oversized payload is NoSpace
    let big = vec![0u8; 1024];
    let h2 = router.req(Eid(9)).unwrap();
    assert_eq!(
        router.send(None, 1, None, false, h2, &big),
        Err(Error::NoSpace)
    );
    // an invalid handle is BadArgument
    assert_eq!(
        router.send(None, 1, None, false, GenericHandle(99), b"x"),
        Err(Error::BadArgument)
    );
}

#[test]
fn transport_failure_is_internal_error() {
    let mut router = Router::new(Eid(42), 0, FailSender { mtu: 64 });
    let h = router.req(Eid(8)).unwrap();
    assert_eq!(
        router.send(None, 1, None, false, h, b"ping"),
        Err(Error::InternalError)
    );
    // the failed exchange did not consume the channel
    let mut ok_router = Router::new(Eid(42), 0, MemSender::new(64));
    let h2 = ok_router.req(Eid(8)).unwrap();
    assert_eq!(h.0, h2.0);
}

// Scenario: local EID 42, remote EID 8; req, send "ping", a response
// fragment carrying "pong" with the same tag; recv returns the payload and
// the matching tag.
#[test]
fn request_response_scenario() {
    let mut server = Server::new(Eid(42), 0, MemSender::new(64));
    let handle = server.req(8).unwrap();
    let tag = server.send(handle, 1, None, None, false, b"ping").unwrap();

    // the request went out as one packet to EID 8 with the owned tag
    assert_eq!(server.stack.sender.packets.len(), 1);
    let (h, chunk) = decode_packet(&server.stack.sender.packets[0]).unwrap();
    assert_eq!(h.dest, 8);
    assert_eq!(h.src, 42);
    assert_eq!(h.msg_type, 1);
    assert_eq!(h.tag, tag);
    assert!(h.tag_owned);
    assert_eq!(chunk, b"ping".to_vec());

    // the peer's response arrives as one fragment
    let resp = encode_packet(&resp_header(42, 8, 1, tag, 4), b"pong");
    server.stack.inbound(&resp).unwrap();

    match server.recv(7, handle, 0) {
        RecvOutcome::Ready(m) => {
            assert_eq!(m.payload, b"pong".to_vec());
            let meta = metadata_of(&m);
            assert_eq!(meta.msg_tag, tag);
            assert_eq!(meta.remote_eid, 8);
            assert_eq!(meta.size, 4);
        }
        _ => panic!("expected a ready message"),
    }
}

// Full round trip between two stacks: the request reaches the peer's
// listener byte for byte, and the response comes back byte-identical with
// the same tag.
#[test]
fn two_stack_roundtrip() {
    let mut a = Server::new(Eid(42), 0, MemSender::new(4));
    let mut b = Server::new(Eid(8), 0, MemSender::new(4));

    let req_handle = a.req(8).unwrap();
    let listener = b.listener(1).unwrap();

    let payload = b"a longer payload that must fragment".to_vec();
    let tag = a.send(req_handle, 1, None, None, false, &payload).unwrap();

    // carry every packet over to the peer
    for p in a.stack.sender.packets.clone() {
        b.stack.inbound(&p).unwrap();
    }
    let request = match b.recv(1, listener, 0) {
        RecvOutcome::Ready(m) => m,
        _ => panic!("listener should have the request"),
    };
    assert_eq!(request.payload, payload);
    assert_eq!(request.tag, tag);
    assert!(request.tag_owned);

    // the peer answers on the listener handle, echoing source and tag
    let echoed = b
        .send(listener, 1, Some(request.source), Some(request.tag), false, &payload)
        .unwrap();
    assert_eq!(echoed, tag);
    for p in b.stack.sender.packets.clone() {
        a.stack.inbound(&p).unwrap();
    }
    let response = match a.recv(2, req_handle, 0) {
        RecvOutcome::Ready(m) => m,
        _ => panic!("requester should have the response"),
    };
    assert_eq!(response.payload, payload);
    assert_eq!(response.tag, tag);
    assert!(!response.tag_owned);

    // with the exchange complete, the channel takes a new request
    a.send(req_handle, 1, None, None, false, b"next").unwrap();
}

// Timeout boundary: a receive with a 100 ms timeout survives a sweep at
// 99 ms and times out at exactly 100 ms.
#[test]
fn timeout_boundary() {
    let mut server = Server::new(Eid(42), 0, MemSender::new(64));
    let handle = server.req(8).unwrap();
    assert!(matches!(server.recv(7, handle, 100), RecvOutcome::Postponed));

    let (completions, next) = server.update(99);
    assert_eq!(completions.len(), 0);
    assert_eq!(next, 1); // one millisecond to the deadline

    let (completions, next) = server.update(100);
    assert_eq!(completions.len(), 1);
    assert_eq!(completions[0].caller, 7);
    assert_eq!(completions[0].handle, handle);
    assert!(matches!(completions[0].outcome, Err(ServerError::TimedOut)));
    assert_eq!(next, NO_DEADLINE);
}

// Idempotence: with no new inbound data and no elapsed deadline, a second
// sweep changes nothing and reports the same next deadline.
#[test]
fn update_idempotent() {
    let mut server = Server::new(Eid(42), 0, MemSender::new(64));
    let handle = server.req(8).unwrap();
    assert!(matches!(server.recv(7, handle, 500), RecvOutcome::Postponed));
    let h2 = server.req(9).unwrap();
    assert!(matches!(server.recv(3, h2, 0), RecvOutcome::Postponed));

    let (c1, n1) = server.update(100);
    let (c2, n2) = server.update(100);
    assert_eq!(c1.len(), 0);
    assert_eq!(c2.len(), 0);
    assert_eq!(n1, n2);
    assert_eq!(n1, 400);
    // the entries are still there: the deadline still fires later
    let (c3, _) = server.update(500);
    assert_eq!(c3.len(), 1);
}

#[test]
fn recv_does_not_overwrite_outstanding_entry() {
    let mut server = Server::new(Eid(42), 0, MemSender::new(64));
    let handle = server.req(8).unwrap();
    assert!(matches!(server.recv(7, handle, 100), RecvOutcome::Postponed));
    // a second call for the same handle leaves the first authoritative
    assert!(matches!(server.recv(9, handle, 10_000), RecvOutcome::Postponed));
    let (completions, _) = server.update(100);
    assert_eq!(completions.len(), 1);
    assert_eq!(completions[0].caller, 7);
}

#[test]
fn update_delivers_postponed_message() {
    let mut server = Server::new(Eid(42), 0, MemSender::new(64));
    let handle = server.req(8).unwrap();
    let tag = server.send(handle, 1, None, None, false, b"ping").unwrap();
    assert!(matches!(server.recv(7, handle, 1000), RecvOutcome::Postponed));

    let resp = encode_packet(&resp_header(42, 8, 1, tag, 2), b"ok");
    server.stack.inbound(&resp).unwrap();

    let (completions, next) = server.update(10);
    assert_eq!(completions.len(), 1);
    assert_eq!(completions[0].caller, 7);
    match &completions[0].outcome {
        Ok(m) => assert_eq!(m.payload, b"ok".to_vec()),
        Err(_) => panic!("expected a delivery"),
    }
    assert_eq!(next, NO_DEADLINE);
}

#[test]
fn inbound_ignores_other_destinations_and_rejects_garbage() {
    let mut router = Router::new(Eid(42), 0, MemSender::new(64));
    // addressed elsewhere: ignored without error
    let other = encode_packet(&resp_header(9, 8, 1, 0, 1), b"x");
    assert_eq!(router.inbound(&other), Ok(()));
    // undecodable bytes are a framing error
    assert_eq!(router.inbound(&[1, 2, 3]), Err(Error::RxFailure));
}

#[test]
fn tags_allocate_distinctly_per_remote() {
    let mut router = Router::new(Eid(42), 0, MemSender::new(64));
    let h1 = router.req(Eid(8)).unwrap();
    let h2 = router.req(Eid(8)).unwrap();
    let t1 = router.send(None, 1, None, false, h1, b"a").unwrap();
    let t2 = router.send(None, 1, None, false, h2, b"b").unwrap();
    match (t1, t2) {
        (Tag::Owned(a), Tag::Owned(b)) => assert_ne!(a, b),
        _ => panic!("requests carry owned tags"),
    }
}

#[test]
fn server_error_conversions() {
    assert_eq!(ServerError::from_stack_error(Error::NoSpace), ServerError::NoSpace);
    assert_eq!(ServerError::from_stack_error(Error::Unsupported), ServerError::InternalError);
    assert_eq!(ServerError::TimedOut.to_stack_error(), Error::TimedOut);
    assert_eq!(ServerError::ServerRestarted.to_stack_error(), Error::InternalError);
}

// One sweep answers every dropped call: here one delivery and one timeout
// in the same tick, each exactly once.
#[test]
fn update_answers_every_dropped_call() {
    let mut server = Server::new(Eid(42), 0, MemSender::new(64));
    let h1 = server.req(8).unwrap();
    let h2 = server.req(9).unwrap();
    let tag = server.send(h1, 1, None, None, false, b"ping").unwrap();
    assert!(matches!(server.recv(1, h1, 1000), RecvOutcome::Postponed));
    assert!(matches!(server.recv(2, h2, 50), RecvOutcome::Postponed));

    // a response arrives for the first handle; the second times out
    let resp = encode_packet(&resp_header(42, 8, 1, tag, 2), b"ok");
    server.stack.inbound(&resp).unwrap();
    let (completions, next) = server.update(60);
    assert_eq!(completions.len(), 2);
    assert_ne!(completions[0].handle, completions[1].handle);
    for c in &completions {
        if c.handle == h1 {
            assert_eq!(c.caller, 1);
            assert!(matches!(&c.outcome, Ok(m) if m.payload == b"ok".to_vec()));
        } else {
            assert_eq!(c.handle, h2);
            assert_eq!(c.caller, 2);
            assert!(matches!(c.outcome, Err(ServerError::TimedOut)));
        }
    }
    assert_eq!(next, NO_DEADLINE);
}
