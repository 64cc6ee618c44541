//! Core MCTP protocol values: endpoint IDs, message types, tags.

use vstd::prelude::*;

verus! {

/// True of endpoint IDs a node may own: the null (0) and broadcast (0xFF)
/// addresses are reserved by the protocol.
pub open spec fn eid_valid(eid: u8) -> bool {
    eid != 0 && eid != 0xFF
}

/// An MCTP endpoint ID: the 8-bit address of one node on the bus.
#[derive(Clone, Copy, Debug, PartialEq, Eq, Structural)]
pub struct Eid(pub u8);

impl Eid {
    /// Whether this EID may be assigned as a node's own address.
    pub fn is_assignable(&self) -> (r: bool)
        ensures
            r == eid_valid(self.0),
    {
        self.0 != 0 && self.0 != 0xFF
    }
}

/// An MCTP message type, classifying the payload of a message.
#[derive(Clone, Copy, Debug, PartialEq, Eq, Structural)]
pub struct MsgType(pub u8);

/// An exchange tag.  `Owned` tags were allocated locally when a request was
/// sent; `Unowned` tags arrived on an inbound request and are echoed back by
/// the response.
#[derive(Clone, Copy, Debug, PartialEq, Eq, Structural)]
pub enum Tag {
    Owned(u8),
    Unowned(u8),
}

impl Tag {
    /// The three-bit tag value, without the ownership bit.
    pub fn tag(&self) -> (r: u8)
        ensures
            r == self.spec_tag(),
    {
        match self {
            Tag::Owned(t) => *t,
            Tag::Unowned(t) => *t,
        }
    }

    /// The tag value in specifications.
    pub open spec fn spec_tag(&self) -> u8 {
        match self {
            Tag::Owned(t) => *t,
            Tag::Unowned(t) => *t,
        }
    }
}

/// A generic handle for a listener, request or response channel.
#[derive(Clone, Copy, Debug, PartialEq, Eq, Structural)]
pub struct GenericHandle(pub u32);

/// Errors of the transport stack as seen by its direct callers.
#[derive(Clone, Copy, Debug, PartialEq, Eq, Structural)]
pub enum Error {
    /// An internal failure, including transport send failures.
    InternalError,
    /// A table or payload capacity was exhausted.
    NoSpace,
    /// A listener for the message type is already registered.
    AddrInUse,
    /// An outstanding receive call reached its deadline.
    TimedOut,
    /// A malformed argument or a call in the wrong channel state.
    BadArgument,
    /// A received packet could not be parsed or continued no open message.
    RxFailure,
    /// The operation is not offered by this stack.
    Unsupported,
}

} // verus!
