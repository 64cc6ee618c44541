//! Common types of the I2C server: controllers, response codes, bus
//! addressing, and the hardware abstraction the server drives.

use vstd::prelude::*;

verus! {

/// The operations the I2C server accepts.
#[derive(Clone, Copy, Debug, PartialEq, Eq, Structural)]
pub enum Op {
    /// A write followed by a read.
    WriteRead,
    /// A write followed by an SMBus block read: only the final read is a
    /// block operation.
    WriteReadBlock,
}

impl Op {
    /// The operation's wire code.
    pub fn code(&self) -> (r: u32)
        ensures
            r == (match self {
                Op::WriteRead => 1u32,
                Op::WriteReadBlock => 2u32,
            }),
    {
        match self {
            Op::WriteRead => 1,
            Op::WriteReadBlock => 2,
        }
    }

    /// The operation a wire code names.
    pub fn from_code(code: u32) -> (r: Option<Op>)
        ensures
            r == (match code {
                1u32 => Some(Op::WriteRead),
                2u32 => Some(Op::WriteReadBlock),
                _ => None::<Op>,
            }),
    {
        match code {
            1 => Some(Op::WriteRead),
            2 => Some(Op::WriteReadBlock),
            _ => None,
        }
    }
}

/// The response codes the I2C server returns.  They are deliberately
/// specific: not because callers handle each differently, but to give
/// upstack software context around a failure.
#[derive(Clone, Copy, Debug, PartialEq, Eq, Structural)]
pub enum ResponseCode {
    /// Bad response from server.
    BadResponse,
    /// Bad argument sent to server.
    BadArg,
    /// Indicated I2C device is invalid.
    NoDevice,
    /// Indicated I2C controller is invalid.
    BadController,
    /// Device address is reserved.
    ReservedAddress,
    /// Indicated port is invalid.
    BadPort,
    /// Device does not have indicated register.
    NoRegister,
    /// Indicated mux is an invalid mux identifier.
    BadMux,
    /// Indicated segment is an invalid segment identifier.
    BadSegment,
    /// Indicated mux does not exist on this controller.
    MuxNotFound,
    /// Indicated segment does not exist on this controller.
    SegmentNotFound,
    /// Segment disconnected during operation.
    SegmentDisconnected,
    /// Mux disconnected during operation.
    MuxDisconnected,
    /// No device at address used for mux in-band management.
    MuxMissing,
    /// Register used for mux in-band management is invalid.
    BadMuxRegister,
    /// I2C bus was spontaneously reset during operation.
    BusReset,
    /// I2C bus was reset during a mux in-band management operation.
    BusResetMux,
    /// I2C bus locked up and was reset.
    BusLocked,
    /// I2C bus locked up during in-band management operation and was reset.
    BusLockedMux,
    /// I2C controller appeared to be busy and was reset.
    ControllerBusy,
    /// I2C bus error.
    BusError,
    /// Bad device state of unknown origin.
    BadDeviceState,
    /// Requested operation is not supported.
    OperationNotSupported,
    /// Illegal number of leases.
    IllegalLeaseCount,
    /// Too much data — or not enough buffer.
    TooMuchData,
}

/// The controller for a given I2C device, numbered as the microcontroller
/// documents its peripherals.
#[derive(Clone, Copy, Debug, PartialEq, Eq, Structural)]
pub enum Controller {
    I2C0,
    I2C1,
    I2C2,
    I2C3,
    I2C4,
    I2C5,
    I2C6,
    I2C7,
    Mock,
}

impl Controller {
    /// The controller's index, in specifications.
    pub open spec fn index_spec(&self) -> u8 {
        match self {
            Controller::I2C0 => 0,
            Controller::I2C1 => 1,
            Controller::I2C2 => 2,
            Controller::I2C3 => 3,
            Controller::I2C4 => 4,
            Controller::I2C5 => 5,
            Controller::I2C6 => 6,
            Controller::I2C7 => 7,
            Controller::Mock => 0xFF,
        }
    }

    /// The controller's index: 0 through 7 for the hardware controllers,
    /// 0xFF for the mock.
    pub fn index(&self) -> (r: u8)
        ensures
            r == self.index_spec(),
    {
        match self {
            Controller::I2C0 => 0,
            Controller::I2C1 => 1,
            Controller::I2C2 => 2,
            Controller::I2C3 => 3,
            Controller::I2C4 => 4,
            Controller::I2C5 => 5,
            Controller::I2C6 => 6,
            Controller::I2C7 => 7,
            Controller::Mock => 0xFF,
        }
    }
}

/// The seven-bit addresses the protocol reserves: general call, CBUS,
/// future-bus and high-speed codes at the bottom of the range, and the
/// ten-bit addressing prefixes at the top.
#[derive(Clone, Copy, Debug, PartialEq, Eq, Structural)]
pub enum ReservedAddress {
    GeneralCall,
    CBUSAddress,
    FutureBus,
    FuturePurposes,
    HighSpeedReserved00,
    HighSpeedReserved01,
    HighSpeedReserved10,
    HighSpeedReserved11,
    TenBit00,
    TenBit01,
    TenBit10,
    TenBit11,
}

/// Whether a seven-bit address is reserved by the protocol.
pub open spec fn addr_reserved(addr: u8) -> bool {
    addr <= 7 || (124 <= addr && addr <= 127)
}

impl ReservedAddress {
    /// The reserved address a seven-bit value names, if any.
    pub fn from_u8(addr: u8) -> (r: Option<ReservedAddress>)
        ensures
            r is Some <==> addr_reserved(addr),
    {
        match addr {
            0 => Some(ReservedAddress::GeneralCall),
            1 => Some(ReservedAddress::CBUSAddress),
            2 => Some(ReservedAddress::FutureBus),
            3 => Some(ReservedAddress::FuturePurposes),
            4 => Some(ReservedAddress::HighSpeedReserved00),
            5 => Some(ReservedAddress::HighSpeedReserved01),
            6 => Some(ReservedAddress::HighSpeedReserved10),
            7 => Some(ReservedAddress::HighSpeedReserved11),
            124 => Some(ReservedAddress::TenBit00),
            125 => Some(ReservedAddress::TenBit01),
            126 => Some(ReservedAddress::TenBit10),
            127 => Some(ReservedAddress::TenBit11),
            _ => None,
        }
    }
}

/// The port index for a device: which of a controller's ports its bus
/// hangs off.
#[derive(Clone, Copy, Debug, PartialEq, Eq, Structural)]
pub struct PortIndex(pub u8);

/// A multiplexer identifier on a bus.
#[derive(Clone, Copy, Debug, PartialEq, Eq, Structural)]
pub enum Mux {
    M1,
    M2,
    M3,
    M4,
    M5,
}

/// A segment identifier on a multiplexer.
#[derive(Clone, Copy, Debug, PartialEq, Eq, Structural)]
pub enum Segment {
    S1,
    S2,
    S3,
    S4,
    S5,
    S6,
    S7,
    S8,
    S9,
    S10,
    S11,
    S12,
    S13,
    S14,
    S15,
    S16,
}

/// I2C bus speed configurations.
#[derive(Clone, Copy, Debug, PartialEq, Eq, Structural)]
pub enum I2cSpeed {
    /// Standard mode: 100 kHz.
    Standard,
    /// Fast mode: 400 kHz.
    Fast,
    /// Fast mode plus: 1 MHz.
    FastPlus,
    /// High speed mode: 3.4 MHz.
    HighSpeed,
}

/// Configuration of a controller's slave (target) mode.
#[derive(Clone, Copy, Debug, PartialEq, Eq, Structural)]
pub struct SlaveConfig {
    /// The controller to configure.
    pub controller: Controller,
    /// The port the slave address listens on.
    pub port: PortIndex,
    /// The seven-bit address to answer to.
    pub address: u8,
}

impl SlaveConfig {
    /// A slave configuration; a reserved or out-of-range address is
    /// refused.
    pub fn new(controller: Controller, port: PortIndex, address: u8)
        -> (r: Result<SlaveConfig, ResponseCode>)
        ensures
            !addr_reserved(address) && address < 128
                ==> r == Ok::<SlaveConfig, ResponseCode>(SlaveConfig { controller, port, address }),
            addr_reserved(address) || address >= 128
                ==> r == Err::<SlaveConfig, ResponseCode>(ResponseCode::ReservedAddress),
    {
        if address >= 128 || ReservedAddress::from_u8(address).is_some() {
            Err(ResponseCode::ReservedAddress)
        } else {
            Ok(SlaveConfig { controller, port, address })
        }
    }
}

/// Status of a controller's slave mode.
#[derive(Clone, Copy, Debug, PartialEq, Eq, Structural)]
pub struct SlaveStatus {
    pub enabled: bool,
    pub messages_received: u32,
    pub messages_dropped: u32,
    pub address_matches: u32,
    pub bus_errors: u32,
    pub buffer_full: bool,
}

/// Hardware abstraction for I2C controllers: the platform-agnostic
/// interface the I2C server drives, implemented per microcontroller
/// family.  Each method is a complete bus transaction.
pub trait I2cHardware {
    /// Performs a write followed by a read; returns the bytes read.  A
    /// read never resizes the caller's buffer.
    fn write_read(
        &mut self,
        controller: Controller,
        addr: u8,
        write_data: &[u8],
        read_buffer: &mut [u8],
    ) -> (r: Result<usize, ResponseCode>)
        ensures
            final(read_buffer)@.len() == old(read_buffer)@.len(),
    ;

    /// Performs an SMBus block read; returns the data bytes read, without
    /// the length byte.
    fn write_read_block(
        &mut self,
        controller: Controller,
        addr: u8,
        write_data: &[u8],
        read_buffer: &mut [u8],
    ) -> (r: Result<usize, ResponseCode>)
        ensures
            final(read_buffer)@.len() == old(read_buffer)@.len(),
    ;

    /// Configures bus timing for the given speed.
    fn configure_timing(&mut self, controller: Controller, speed: I2cSpeed)
        -> Result<(), ResponseCode>;

    /// Resets and recovers a locked bus.
    fn reset_bus(&mut self, controller: Controller) -> Result<(), ResponseCode>;

    /// Enables a controller and configures its pins.
    fn enable_controller(&mut self, controller: Controller) -> Result<(), ResponseCode>;

    /// Disables a controller and releases its pins.
    fn disable_controller(&mut self, controller: Controller) -> Result<(), ResponseCode>;
}

} // verus!
