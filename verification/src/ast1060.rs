//! Bookkeeping model of the AST1060 I2C controller adapter: controller
//! identity, transaction counting and last-error tracking.  The register
//! sequencing itself is hardware work outside this crate; the event loop
//! performs it and records each outcome here.

use vstd::prelude::*;
use crate::i2c::{Controller, ResponseCode};

verus! {

/// Errors the AST1060 I2C hardware reports.
#[derive(Clone, Copy, Debug, PartialEq, Eq, Structural)]
pub enum AspeedI2cError {
    /// The controller number does not exist on this part.
    InvalidController,
    /// The transaction timed out.
    Timeout,
    /// The target did not acknowledge.
    NoAck,
    /// A bus error was detected.
    Bus,
    /// The controller was busy.
    Busy,
}

/// The AST1060 hardware adapter's own state.
#[derive(Clone, Copy, Debug, PartialEq, Eq, Structural)]
pub struct Ast1060Hardware {
    /// Which of the eight controllers this instance drives.
    pub controller_id: u8,
    /// How many transactions have been attempted.
    pub transaction_count: u32,
    /// The error of the most recent failed transaction, if the most
    /// recent transaction failed.
    pub last_error: Option<AspeedI2cError>,
}

impl Ast1060Hardware {
    /// A new adapter for a controller; the AST1060 has controllers 0
    /// through 7.
    pub fn new(controller_id: u8) -> (r: Result<Ast1060Hardware, AspeedI2cError>)
        ensures
            controller_id < 8 ==> r == Ok::<Ast1060Hardware, AspeedI2cError>(Ast1060Hardware {
                controller_id,
                transaction_count: 0,
                last_error: None,
            }),
            controller_id >= 8 ==> r == Err::<Ast1060Hardware, AspeedI2cError>(
                AspeedI2cError::InvalidController),
    {
        if controller_id < 8 {
            Ok(Ast1060Hardware {
                controller_id,
                transaction_count: 0,
                last_error: None,
            })
        } else {
            Err(AspeedI2cError::InvalidController)
        }
    }

    /// The controller number this instance drives.
    pub fn controller_id(&self) -> (r: u8)
        ensures
            r == self.controller_id,
    {
        self.controller_id
    }

    /// How many transactions have been attempted.
    pub fn transaction_count(&self) -> (r: u32)
        ensures
            r == self.transaction_count,
    {
        self.transaction_count
    }

    /// The error of the most recent failed transaction, if any.
    pub fn last_error(&self) -> (r: Option<AspeedI2cError>)
        ensures
            r == self.last_error,
    {
        self.last_error
    }

    /// Records one transaction's outcome: the counter advances, a success
    /// clears the last error, a failure stores it.  Returns the outcome
    /// unchanged.
    pub fn record(&mut self, outcome: Result<(), AspeedI2cError>)
        -> (r: Result<(), AspeedI2cError>)
        ensures
            r == outcome,
            final(self).controller_id == old(self).controller_id,
            final(self).transaction_count
                == ((old(self).transaction_count + 1) % 0x1_0000_0000) as u32,
            final(self).last_error == (match outcome {
                Ok(()) => None::<AspeedI2cError>,
                Err(e) => Some(e),
            }),
    {
        self.transaction_count = self.transaction_count.wrapping_add(1);
        match outcome {
            Ok(()) => {
                self.last_error = None;
            }
            Err(e) => {
                self.last_error = Some(e);
            }
        }
        outcome
    }
}


/// The AST1060 controller index a controller names; the mock
/// pseudo-controller has no hardware slot.
pub fn ast1060_controller_index(controller: Controller) -> (r: Result<usize, ResponseCode>)
    ensures
        controller.index_spec() < 8
            ==> r == Ok::<usize, ResponseCode>(controller.index_spec() as usize),
        controller.index_spec() >= 8
            ==> r == Err::<usize, ResponseCode>(ResponseCode::BadController),
{
    let index = controller.index();
    if index < 8 {
        Ok(index as usize)
    } else {
        Err(ResponseCode::BadController)
    }
}

/// The response code an AST1060 hardware error surfaces as: every bus
/// failure is reported as a bus error.
pub fn map_i2c_error(error: AspeedI2cError) -> (r: ResponseCode)
    ensures
        r == ResponseCode::BusError,
{
    match error {
        AspeedI2cError::Bus => ResponseCode::BusError,
        AspeedI2cError::Timeout => ResponseCode::BusError,
        _ => ResponseCode::BusError,
    }
}

/// How many data bytes a raw SMBus block answer carries: the count byte,
/// clamped to what fits in the buffer after the count byte itself.
pub fn block_read_count(first_byte: u8, buffer_len: usize) -> (r: usize)
    ensures
        r == (if first_byte as int <= buffer_len - 1 {
            first_byte as int
        } else if buffer_len == 0 {
            0int
        } else {
            buffer_len - 1
        }),
{
    let block_length = first_byte as usize;
    let room = if buffer_len == 0 { 0 } else { buffer_len - 1 };
    if block_length < room {
        block_length
    } else {
        room
    }
}

} // verus!
