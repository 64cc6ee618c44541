//! Tests of the digest server's session logic and the digest data model.

use rot_stack::digest::{DigestAlgorithm, DigestError, DigestOutput, DigestAsBytes, hash_hex, decimal_bytes};
use rot_stack::digest_server::{MockDigestController, ServerImpl, SessionState};

#[test]
fn session_lifecycle() {
    let mut server = ServerImpl::new(MockDigestController::new());
    let id = server.init_sha256().unwrap();
    assert_eq!(id, 1);

    // only one session at a time
    assert_eq!(server.init_sha256(), Err(DigestError::TooManySessions));
    assert_eq!(server.init_sha512(), Err(DigestError::TooManySessions));

    // the wrong session id is refused, the right one accepted
    assert_eq!(server.update(2, b"abc"), Err(DigestError::InvalidSession));
    server.update(id, b"abc").unwrap();

    // finalizing as another algorithm keeps the session
    assert_eq!(server.finalize_sha384(id), Err(DigestError::UnsupportedAlgorithm));
    let words = server.finalize_sha256(id).unwrap();
    assert_eq!(words.len(), 8);

    // the session is gone now
    assert_eq!(server.update(id, b"x"), Err(DigestError::InvalidSession));
    assert_eq!(server.finalize_sha256(id), Err(DigestError::InvalidSession));
    assert_eq!(server.session, SessionState::Idle);

    // the next session gets the next id
    assert_eq!(server.init_sha384().unwrap(), 2);
}

#[test]
fn oneshot_sizes_and_determinism() {
    let mut server = ServerImpl::new(MockDigestController::new());
    let a = server.compute_sha256_oneshot(b"abc").unwrap();
    let b = server.compute_sha256_oneshot(b"abc").unwrap();
    assert_eq!(a.len(), 8);
    assert_eq!(a, b); // same input, same digest
    let c = server.compute_sha256_oneshot(b"abd").unwrap();
    assert_ne!(a, c);
    assert_eq!(server.compute_sha384_oneshot(b"abc").unwrap().len(), 12);
    assert_eq!(server.compute_sha512_oneshot(b"abc").unwrap().len(), 16);
}

#[test]
fn oneshot_refused_while_session_active() {
    let mut server = ServerImpl::new(MockDigestController::new());
    let id = server.init_sha256().unwrap();
    assert_eq!(
        server.compute_sha256_oneshot(b"abc"),
        Err(DigestError::HardwareFailure)
    );
    server.finalize_sha256(id).unwrap();
    assert!(server.compute_sha256_oneshot(b"abc").is_ok());
}

#[test]
fn sha3_not_offered() {
    let mut server = ServerImpl::new(MockDigestController::new());
    assert_eq!(server.init_sha3_256(), Err(DigestError::UnsupportedAlgorithm));
    assert_eq!(server.init_sha3_384(), Err(DigestError::UnsupportedAlgorithm));
    assert_eq!(server.init_sha3_512(), Err(DigestError::UnsupportedAlgorithm));
}

#[test]
fn digest_output_bytes_little_endian() {
    let out: DigestOutput<2> = DigestOutput::new(vec![0x0403_0201, 0x0807_0605]);
    assert_eq!(out.as_bytes(), vec![1, 2, 3, 4, 5, 6, 7, 8]);
}

#[test]
fn algorithm_word_counts() {
    assert_eq!(DigestAlgorithm::Sha256.words(), 8);
    assert_eq!(DigestAlgorithm::Sha384.words(), 12);
    assert_eq!(DigestAlgorithm::Sha512.words(), 16);
    assert_eq!(DigestAlgorithm::Sha3_256.words(), 8);
}

#[test]
fn hash_hex_renders_big_endian_uppercase() {
    assert_eq!(hash_hex(&[0x0123ABCD]), b"0123ABCD".to_vec());
    assert_eq!(hash_hex(&[0, 0xFFFF_FFFF]), b"00000000FFFFFFFF".to_vec());
}

#[test]
fn decimal_rendering() {
    assert_eq!(decimal_bytes(0), b"0".to_vec());
    assert_eq!(decimal_bytes(7), b"7".to_vec());
    assert_eq!(decimal_bytes(1024), b"1024".to_vec());
    assert_eq!(decimal_bytes(u32::MAX), b"4294967295".to_vec());
}

#[test]
fn digest_error_messages() {
    assert_eq!(DigestError::InvalidSession.message(), "Invalid session");
    assert_eq!(DigestError::Busy.message(), "Unknown digest error");
}
