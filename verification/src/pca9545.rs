//! Driver logic for the PCA9545, a four-channel I2C switch: the value its
//! single control register takes for each segment selection.  Writing the
//! byte to the chip is the bus driver's work; the computation of the byte
//! is here.

use vstd::prelude::*;
use crate::i2c::{Segment, ResponseCode};

verus! {

/// The PCA9545 four-channel I2C switch.
pub struct Pca9545;

impl Pca9545 {
    /// The control-register value for a segment selection, in
    /// specifications: no segment disconnects every channel; segments one
    /// through four each set their channel's enable bit; the chip has no
    /// further channels.
    pub open spec fn control_spec(segment: Option<Segment>) -> Result<u8, ResponseCode> {
        match segment {
            None => Ok(0),
            Some(Segment::S1) => Ok(1),
            Some(Segment::S2) => Ok(2),
            Some(Segment::S3) => Ok(4),
            Some(Segment::S4) => Ok(8),
            Some(_) => Err(ResponseCode::SegmentNotFound),
        }
    }

    /// The control-register value that enables the given segment, or
    /// `SegmentNotFound` for a segment the chip does not have.
    pub fn control_byte(segment: Option<Segment>) -> (r: Result<u8, ResponseCode>)
        ensures
            r == Self::control_spec(segment),
    {
        match segment {
            None => Ok(0),
            Some(Segment::S1) => Ok(1),
            Some(Segment::S2) => Ok(2),
            Some(Segment::S3) => Ok(4),
            Some(Segment::S4) => Ok(8),
            Some(_) => Err(ResponseCode::SegmentNotFound),
        }
    }
}

} // verus!
