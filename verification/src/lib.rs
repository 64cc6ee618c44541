//! Transport and driver core for a small security coprocessor firmware.
//!
//! The centre of the crate is an MCTP (Management Component Transport
//! Protocol) stack: packet framing, fragmentation and reassembly, a router
//! that multiplexes request, listener and response channels over one
//! transport, and a server layer that manages outstanding receive calls and
//! their deadlines.  Around it stand the plain data models and session logic
//! of the digest and I2C servers that share the firmware image.

use vstd::prelude::*;

pub mod proto;
pub mod wire;
pub mod frag;
pub mod reasm;
pub mod router;
pub mod outstanding;
pub mod server;
pub mod roundtrip;
pub mod i2c;
pub mod i2c_mock;
pub mod i2c_manager;
pub mod i2c_adapter;
pub mod ast1060;
pub mod i2c_server;
pub mod pca9545;
pub mod digest;
pub mod digest_server;
pub mod hmac;
pub mod uart;
pub mod spdm;

pub use proto::Eid;

verus! {

/// The largest payload one reassembled message may carry.
pub const MAX_MESSAGE: usize = 1023;

} // verus!
