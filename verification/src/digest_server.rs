//! The digest server's session logic: one streaming session at a time,
//! identified by a session ID, over an opaque digest engine.
//!
//! The engine itself — hardware or mock — is a collaborator behind the
//! [`DigestDevice`] boundary: initialize for an algorithm, feed data,
//! finalize to a word vector.

use vstd::prelude::*;
use crate::digest::{DigestAlgorithm, DigestError, SHA256_WORDS, SHA384_WORDS, SHA512_WORDS};

verus! {

/// The opaque digest engine boundary: initialize, feed, finalize.
pub trait DigestDevice: Sized {
    /// Starts a computation with the given algorithm, discarding any
    /// earlier one.
    fn init(&mut self, algorithm: DigestAlgorithm) -> Result<(), DigestError>;

    /// Feeds data into the running computation.
    fn update(&mut self, data: &[u8]) -> Result<(), DigestError>;

    /// Finishes the computation, producing `words` 32-bit words.
    fn finalize(&mut self, words: usize) -> (r: Result<Vec<u32>, DigestError>)
        ensures
            r matches Ok(v) ==> v@.len() == words,
    ;
}

/// A software digest engine standing in for the hardware accelerator: it
/// folds the data into a running sum and spreads it over the output words.
/// It is deterministic and cheap, not cryptographic.
pub struct MockDigestController {
    /// The algorithm of the running computation, if one runs.
    pub active: Option<DigestAlgorithm>,
    /// Bytes seen so far, folded into a running sum.
    pub sum: u32,
    /// Byte count seen so far.
    pub count: u32,
}

impl MockDigestController {
    /// A controller with no running computation.
    pub fn new() -> (r: MockDigestController)
        ensures
            r.active is None,
            r.sum == 0,
            r.count == 0,
    {
        MockDigestController { active: None, sum: 0, count: 0 }
    }
}

impl DigestDevice for MockDigestController {
    fn init(&mut self, algorithm: DigestAlgorithm) -> Result<(), DigestError> {
        self.active = Some(algorithm);
        self.sum = 0;
        self.count = 0;
        Ok(())
    }

    fn update(&mut self, data: &[u8]) -> Result<(), DigestError> {
        if self.active.is_none() {
            return Err(DigestError::NotInitialized);
        }
        let mut i: usize = 0;
        while i < data.len()
            decreases data@.len() - i,
        {
            self.sum = self.sum.wrapping_add(data[i] as u32).wrapping_mul(31);
            self.count = self.count.wrapping_add(1);
            i += 1;
        }
        Ok(())
    }

    fn finalize(&mut self, words: usize) -> (r: Result<Vec<u32>, DigestError>) {
        if self.active.is_none() {
            return Err(DigestError::NotInitialized);
        }
        let mut out: Vec<u32> = Vec::new();
        let mut i: usize = 0;
        while i < words
            invariant
                i <= words,
                out@.len() == i,
            decreases words - i,
        {
            out.push(self.sum.wrapping_add(self.count).wrapping_add(i as u32));
            i += 1;
        }
        self.active = None;
        self.sum = 0;
        self.count = 0;
        Ok(out)
    }
}

/// The session state: idle, or one streaming session in flight.
#[derive(Clone, Copy, Debug, PartialEq, Eq, Structural)]
pub enum SessionState {
    Idle,
    Active { session_id: u32, algorithm: DigestAlgorithm },
}

/// The digest server: the engine plus session bookkeeping.
pub struct ServerImpl<D: DigestDevice> {
    /// The digest engine.
    pub hardware: D,
    /// The running session, if any.
    pub session: SessionState,
    /// The ID the next session gets.
    pub next_session_id: u32,
}

impl<D: DigestDevice> ServerImpl<D> {
    /// A new server around an engine; session IDs start at 1.
    pub fn new(hardware: D) -> (r: ServerImpl<D>)
        ensures
            r.session == SessionState::Idle,
            r.next_session_id == 1,
            r.hardware == hardware,
    {
        ServerImpl { hardware, session: SessionState::Idle, next_session_id: 1 }
    }

    /// Starts a streaming session for an algorithm: refused with
    /// `TooManySessions` while one is active; otherwise the engine is
    /// initialized and the fresh session ID returned.
    fn start_session(&mut self, algorithm: DigestAlgorithm) -> (r: Result<u32, DigestError>)
        ensures
            old(self).session is Active ==> r == Err::<u32, DigestError>(DigestError::TooManySessions)
                && final(self).session == old(self).session
                && final(self).next_session_id == old(self).next_session_id
                && final(self).hardware == old(self).hardware,
            old(self).session is Idle ==> match r {
                Ok(id) => id == old(self).next_session_id
                    && final(self).session == (SessionState::Active {
                        session_id: id,
                        algorithm,
                    })
                    && final(self).next_session_id
                        == ((old(self).next_session_id + 1) % 0x1_0000_0000) as u32,
                Err(e) => e == DigestError::HardwareFailure
                    && final(self).session == SessionState::Idle
                    && final(self).next_session_id == old(self).next_session_id,
            },
    {
        match self.session {
            SessionState::Active { .. } => Err(DigestError::TooManySessions),
            SessionState::Idle => {
                match self.hardware.init(algorithm) {
                    Ok(()) => {
                        let session_id = self.next_session_id;
                        self.next_session_id = self.next_session_id.wrapping_add(1);
                        self.session = SessionState::Active { session_id, algorithm };
                        Ok(session_id)
                    }
                    Err(_) => Err(DigestError::HardwareFailure),
                }
            }
        }
    }

    /// Starts a SHA-256 session.
    pub fn init_sha256(&mut self) -> (r: Result<u32, DigestError>)
        ensures
            old(self).session is Active ==> r == Err::<u32, DigestError>(DigestError::TooManySessions)
                && final(self).session == old(self).session
                && final(self).next_session_id == old(self).next_session_id
                && final(self).hardware == old(self).hardware,
            old(self).session is Idle ==> match r {
                Ok(id) => id == old(self).next_session_id
                    && final(self).session == (SessionState::Active {
                        session_id: id,
                        algorithm: DigestAlgorithm::Sha256,
                    })
                    && final(self).next_session_id
                        == ((old(self).next_session_id + 1) % 0x1_0000_0000) as u32,
                Err(e) => e == DigestError::HardwareFailure
                    && final(self).session == SessionState::Idle
                    && final(self).next_session_id == old(self).next_session_id,
            },
    {
        self.start_session(DigestAlgorithm::Sha256)
    }

    /// Starts a SHA-384 session.
    pub fn init_sha384(&mut self) -> (r: Result<u32, DigestError>)
        ensures
            old(self).session is Active ==> r == Err::<u32, DigestError>(DigestError::TooManySessions)
                && final(self).session == old(self).session
                && final(self).next_session_id == old(self).next_session_id
                && final(self).hardware == old(self).hardware,
            old(self).session is Idle ==> match r {
                Ok(id) => id == old(self).next_session_id
                    && final(self).session == (SessionState::Active {
                        session_id: id,
                        algorithm: DigestAlgorithm::Sha384,
                    })
                    && final(self).next_session_id
                        == ((old(self).next_session_id + 1) % 0x1_0000_0000) as u32,
                Err(e) => e == DigestError::HardwareFailure
                    && final(self).session == SessionState::Idle
                    && final(self).next_session_id == old(self).next_session_id,
            },
    {
        self.start_session(DigestAlgorithm::Sha384)
    }

    /// Starts a SHA-512 session.
    pub fn init_sha512(&mut self) -> (r: Result<u32, DigestError>)
        ensures
            old(self).session is Active ==> r == Err::<u32, DigestError>(DigestError::TooManySessions)
                && final(self).session == old(self).session
                && final(self).next_session_id == old(self).next_session_id
                && final(self).hardware == old(self).hardware,
            old(self).session is Idle ==> match r {
                Ok(id) => id == old(self).next_session_id
                    && final(self).session == (SessionState::Active {
                        session_id: id,
                        algorithm: DigestAlgorithm::Sha512,
                    })
                    && final(self).next_session_id
                        == ((old(self).next_session_id + 1) % 0x1_0000_0000) as u32,
                Err(e) => e == DigestError::HardwareFailure
                    && final(self).session == SessionState::Idle
                    && final(self).next_session_id == old(self).next_session_id,
            },
    {
        self.start_session(DigestAlgorithm::Sha512)
    }

    /// SHA-3 sessions are not offered by this server.
    pub fn init_sha3_256(&mut self) -> (r: Result<u32, DigestError>)
        ensures
            r == Err::<u32, DigestError>(DigestError::UnsupportedAlgorithm),
            *final(self) == *old(self),
    {
        Err(DigestError::UnsupportedAlgorithm)
    }

    /// SHA-3 sessions are not offered by this server.
    pub fn init_sha3_384(&mut self) -> (r: Result<u32, DigestError>)
        ensures
            r == Err::<u32, DigestError>(DigestError::UnsupportedAlgorithm),
            *final(self) == *old(self),
    {
        Err(DigestError::UnsupportedAlgorithm)
    }

    /// SHA-3 sessions are not offered by this server.
    pub fn init_sha3_512(&mut self) -> (r: Result<u32, DigestError>)
        ensures
            r == Err::<u32, DigestError>(DigestError::UnsupportedAlgorithm),
            *final(self) == *old(self),
    {
        Err(DigestError::UnsupportedAlgorithm)
    }

    /// Feeds data into the session named by `session_id`; a missing or
    /// different session is `InvalidSession`.
    pub fn update(&mut self, session_id: u32, data: &[u8]) -> (r: Result<(), DigestError>)
        ensures
            final(self).session == old(self).session,
            final(self).next_session_id == old(self).next_session_id,
            old(self).session is Idle ==> r == Err::<(), DigestError>(DigestError::InvalidSession)
                && final(self).hardware == old(self).hardware,
            old(self).session matches SessionState::Active { session_id: sid, .. } && sid != session_id
                ==> r == Err::<(), DigestError>(DigestError::InvalidSession)
                    && final(self).hardware == old(self).hardware,
            old(self).session matches SessionState::Active { session_id: sid, .. } && sid == session_id
                ==> (r == Ok::<(), DigestError>(())
                    || r == Err::<(), DigestError>(DigestError::HardwareFailure)),
    {
        match self.session {
            SessionState::Idle => Err(DigestError::InvalidSession),
            SessionState::Active { session_id: sid, .. } => {
                if sid != session_id {
                    return Err(DigestError::InvalidSession);
                }
                match self.hardware.update(data) {
                    Ok(()) => Ok(()),
                    Err(_) => Err(DigestError::HardwareFailure),
                }
            }
        }
    }

    /// Finishes the session as the given algorithm, returning its words.
    /// A missing or different session is `InvalidSession`; a session of
    /// another algorithm is `UnsupportedAlgorithm` and stays active.
    fn finalize_session(&mut self, session_id: u32, algorithm: DigestAlgorithm)
        -> (r: Result<Vec<u32>, DigestError>)
        ensures
            final(self).next_session_id == old(self).next_session_id,
            old(self).session is Idle ==> r == Err::<Vec<u32>, DigestError>(DigestError::InvalidSession)
                && final(self).session == old(self).session
                && final(self).hardware == old(self).hardware,
            old(self).session matches SessionState::Active { session_id: sid, .. } && sid != session_id
                ==> r == Err::<Vec<u32>, DigestError>(DigestError::InvalidSession)
                    && final(self).session == old(self).session
                    && final(self).hardware == old(self).hardware,
            old(self).session matches SessionState::Active { session_id: sid, algorithm: alg }
                && sid == session_id && alg != algorithm
                ==> r == Err::<Vec<u32>, DigestError>(DigestError::UnsupportedAlgorithm)
                    && final(self).session == old(self).session
                    && final(self).hardware == old(self).hardware,
            old(self).session matches SessionState::Active { session_id: sid, algorithm: alg }
                && sid == session_id && alg == algorithm
                ==> match r {
                    Ok(v) => v@.len() == algorithm.words_spec()
                        && final(self).session == SessionState::Idle,
                    Err(e) => e == DigestError::HardwareFailure
                        && final(self).session == SessionState::Idle,
                },
    {
        match self.session {
            SessionState::Idle => Err(DigestError::InvalidSession),
            SessionState::Active { session_id: sid, algorithm: alg } => {
                if sid != session_id {
                    return Err(DigestError::InvalidSession);
                }
                if alg != algorithm {
                    return Err(DigestError::UnsupportedAlgorithm);
                }
                self.session = SessionState::Idle;
                match self.hardware.finalize(algorithm.words()) {
                    Ok(v) => Ok(v),
                    Err(_) => Err(DigestError::HardwareFailure),
                }
            }
        }
    }

    /// Finishes a SHA-256 session.
    pub fn finalize_sha256(&mut self, session_id: u32) -> (r: Result<Vec<u32>, DigestError>)
        ensures
            final(self).next_session_id == old(self).next_session_id,
            old(self).session is Idle ==> r == Err::<Vec<u32>, DigestError>(DigestError::InvalidSession)
                && final(self).session == old(self).session
                && final(self).hardware == old(self).hardware,
            old(self).session matches SessionState::Active { session_id: sid, .. } && sid != session_id
                ==> r == Err::<Vec<u32>, DigestError>(DigestError::InvalidSession)
                    && final(self).session == old(self).session
                    && final(self).hardware == old(self).hardware,
            old(self).session matches SessionState::Active { session_id: sid, algorithm: alg }
                && sid == session_id && alg != DigestAlgorithm::Sha256
                ==> r == Err::<Vec<u32>, DigestError>(DigestError::UnsupportedAlgorithm)
                    && final(self).session == old(self).session
                    && final(self).hardware == old(self).hardware,
            old(self).session matches SessionState::Active { session_id: sid, algorithm: alg }
                && sid == session_id && alg == DigestAlgorithm::Sha256
                ==> match r {
                    Ok(v) => v@.len() == SHA256_WORDS && final(self).session == SessionState::Idle,
                    Err(e) => e == DigestError::HardwareFailure
                        && final(self).session == SessionState::Idle,
                },
    {
        self.finalize_session(session_id, DigestAlgorithm::Sha256)
    }

    /// Finishes a SHA-384 session.
    pub fn finalize_sha384(&mut self, session_id: u32) -> (r: Result<Vec<u32>, DigestError>)
        ensures
            final(self).next_session_id == old(self).next_session_id,
            old(self).session is Idle ==> r == Err::<Vec<u32>, DigestError>(DigestError::InvalidSession)
                && final(self).session == old(self).session
                && final(self).hardware == old(self).hardware,
            old(self).session matches SessionState::Active { session_id: sid, .. } && sid != session_id
                ==> r == Err::<Vec<u32>, DigestError>(DigestError::InvalidSession)
                    && final(self).session == old(self).session
                    && final(self).hardware == old(self).hardware,
            old(self).session matches SessionState::Active { session_id: sid, algorithm: alg }
                && sid == session_id && alg != DigestAlgorithm::Sha384
                ==> r == Err::<Vec<u32>, DigestError>(DigestError::UnsupportedAlgorithm)
                    && final(self).session == old(self).session
                    && final(self).hardware == old(self).hardware,
            old(self).session matches SessionState::Active { session_id: sid, algorithm: alg }
                && sid == session_id && alg == DigestAlgorithm::Sha384
                ==> match r {
                    Ok(v) => v@.len() == SHA384_WORDS && final(self).session == SessionState::Idle,
                    Err(e) => e == DigestError::HardwareFailure
                        && final(self).session == SessionState::Idle,
                },
    {
        self.finalize_session(session_id, DigestAlgorithm::Sha384)
    }

    /// Finishes a SHA-512 session.
    pub fn finalize_sha512(&mut self, session_id: u32) -> (r: Result<Vec<u32>, DigestError>)
        ensures
            final(self).next_session_id == old(self).next_session_id,
            old(self).session is Idle ==> r == Err::<Vec<u32>, DigestError>(DigestError::InvalidSession)
                && final(self).session == old(self).session
                && final(self).hardware == old(self).hardware,
            old(self).session matches SessionState::Active { session_id: sid, .. } && sid != session_id
                ==> r == Err::<Vec<u32>, DigestError>(DigestError::InvalidSession)
                    && final(self).session == old(self).session
                    && final(self).hardware == old(self).hardware,
            old(self).session matches SessionState::Active { session_id: sid, algorithm: alg }
                && sid == session_id && alg != DigestAlgorithm::Sha512
                ==> r == Err::<Vec<u32>, DigestError>(DigestError::UnsupportedAlgorithm)
                    && final(self).session == old(self).session
                    && final(self).hardware == old(self).hardware,
            old(self).session matches SessionState::Active { session_id: sid, algorithm: alg }
                && sid == session_id && alg == DigestAlgorithm::Sha512
                ==> match r {
                    Ok(v) => v@.len() == SHA512_WORDS && final(self).session == SessionState::Idle,
                    Err(e) => e == DigestError::HardwareFailure
                        && final(self).session == SessionState::Idle,
                },
    {
        self.finalize_session(session_id, DigestAlgorithm::Sha512)
    }

    /// One-shot hash: refused with `HardwareFailure` while a streaming
    /// session holds the engine, as the engine has a single context.
    fn compute_oneshot(&mut self, algorithm: DigestAlgorithm, data: &[u8])
        -> (r: Result<Vec<u32>, DigestError>)
        ensures
            final(self).session == old(self).session,
            final(self).next_session_id == old(self).next_session_id,
            old(self).session is Active ==> r == Err::<Vec<u32>, DigestError>(DigestError::HardwareFailure)
                && final(self).hardware == old(self).hardware,
            r matches Ok(v) ==> v@.len() == algorithm.words_spec(),
    {
        match self.session {
            SessionState::Active { .. } => Err(DigestError::HardwareFailure),
            SessionState::Idle => {
                if self.hardware.init(algorithm).is_err() {
                    return Err(DigestError::HardwareFailure);
                }
                if self.hardware.update(data).is_err() {
                    return Err(DigestError::HardwareFailure);
                }
                match self.hardware.finalize(algorithm.words()) {
                    Ok(v) => Ok(v),
                    Err(_) => Err(DigestError::HardwareFailure),
                }
            }
        }
    }

    /// One-shot SHA-256 hash.
    pub fn compute_sha256_oneshot(&mut self, data: &[u8]) -> (r: Result<Vec<u32>, DigestError>)
        ensures
            final(self).session == old(self).session,
            final(self).next_session_id == old(self).next_session_id,
            old(self).session is Active ==> r == Err::<Vec<u32>, DigestError>(DigestError::HardwareFailure)
                && final(self).hardware == old(self).hardware,
            r matches Ok(v) ==> v@.len() == SHA256_WORDS,
    {
        self.compute_oneshot(DigestAlgorithm::Sha256, data)
    }

    /// One-shot SHA-384 hash.
    pub fn compute_sha384_oneshot(&mut self, data: &[u8]) -> (r: Result<Vec<u32>, DigestError>)
        ensures
            final(self).session == old(self).session,
            final(self).next_session_id == old(self).next_session_id,
            old(self).session is Active ==> r == Err::<Vec<u32>, DigestError>(DigestError::HardwareFailure)
                && final(self).hardware == old(self).hardware,
            r matches Ok(v) ==> v@.len() == SHA384_WORDS,
    {
        self.compute_oneshot(DigestAlgorithm::Sha384, data)
    }

    /// One-shot SHA-512 hash.
    pub fn compute_sha512_oneshot(&mut self, data: &[u8]) -> (r: Result<Vec<u32>, DigestError>)
        ensures
            final(self).session == old(self).session,
            final(self).next_session_id == old(self).next_session_id,
            old(self).session is Active ==> r == Err::<Vec<u32>, DigestError>(DigestError::HardwareFailure)
                && final(self).hardware == old(self).hardware,
            r matches Ok(v) ==> v@.len() == SHA512_WORDS,
    {
        self.compute_oneshot(DigestAlgorithm::Sha512, data)
    }
}

} // verus!
