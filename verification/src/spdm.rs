//! The SPDM responder's protocol constants and its placeholder request
//! handling: every request is answered with an SPDM error response until a
//! full protocol engine stands behind it.

use vstd::prelude::*;

verus! {

/// SPDM travels as MCTP message type 5.
pub const SPDM_MSG_TYPE: u8 = 5;

/// The endpoint ID the SPDM responder claims.
pub const SPDM_RESPONDER_EID: u8 = 42;

/// Buffer size for SPDM messages; certificates can make them large.
pub const SPDM_BUFFER_SIZE: usize = 4096;

/// Answers an SPDM request.  Until a protocol engine is wired in, every
/// request draws the same answer: an SPDM 1.0 ERROR response with code
/// `InvalidRequest`.
pub fn process_spdm_request(request: &[u8]) -> (r: Vec<u8>)
    ensures
        r@ =~= seq![0x10u8, 0x7Fu8, 0x01u8, 0x00u8],
{
    let mut response: Vec<u8> = Vec::new();
    response.push(0x10);
    response.push(0x7F);
    response.push(0x01);
    response.push(0x00);
    response
}

} // verus!
