//! The hardware-agnostic I2C server: device validation, multiplexer
//! bookkeeping, and routing of bus operations to the hardware behind it.

use vstd::prelude::*;
use crate::i2c::{Controller, PortIndex, Mux, Segment, ResponseCode, I2cSpeed, I2cHardware};
use crate::i2c_mock::MockI2cHardware;

verus! {

/// How many (controller, port) pairs can track a multiplexer state.
pub const MAX_MUXED_BUSES: usize = 32;

/// One addressed device: its controller, port, bus address, and the mux
/// segment it sits behind, if any.
#[derive(Clone, Copy, Debug)]
pub struct I2cDevice {
    pub controller: Controller,
    pub port: PortIndex,
    pub address: u8,
    pub segment: Option<(Mux, Segment)>,
}

/// The segment a muxed bus currently has enabled.
#[derive(Clone, Copy, Debug, PartialEq, Eq, Structural)]
pub struct MuxState {
    pub current_segment: Option<Segment>,
}

/// Whether a device's address is allowed: seven bits, not the reserved
/// upper range.
pub open spec fn device_addr_ok(device: I2cDevice) -> bool {
    device.address < 0x80
}

/// Whether the mux table already tracks a (controller, port) bus.
pub open spec fn mux_key_tracked(s: Seq<((Controller, PortIndex), MuxState)>,
    controller: Controller, port: PortIndex) -> bool {
    exists|i: int| 0 <= i < s.len() && (#[trigger] s[i]).0 == (controller, port)
}

/// The generic I2C server.
pub struct GenericI2cServer<H: I2cHardware> {
    /// The hardware behind the server.
    pub hardware: H,
    /// Mux bookkeeping per (controller, port), at most `MAX_MUXED_BUSES`
    /// entries, one per key.
    pub mux_state: Vec<((Controller, PortIndex), MuxState)>,
}

impl<H: I2cHardware> GenericI2cServer<H> {
    /// The mux table stays bounded.
    pub open spec fn wf(self) -> bool {
        self.mux_state@.len() <= MAX_MUXED_BUSES
    }

    /// A new server: every controller is enabled and configured for fast
    /// mode, as far as the hardware allows.
    pub fn new(hardware: H) -> (r: GenericI2cServer<H>)
        ensures
            r.wf(),
            r.mux_state@.len() == 0,
    {
        let mut hardware = hardware;
        let _ = hardware.enable_controller(Controller::I2C0);
        let _ = hardware.configure_timing(Controller::I2C0, I2cSpeed::Fast);
        let _ = hardware.enable_controller(Controller::I2C1);
        let _ = hardware.configure_timing(Controller::I2C1, I2cSpeed::Fast);
        let _ = hardware.enable_controller(Controller::I2C2);
        let _ = hardware.configure_timing(Controller::I2C2, I2cSpeed::Fast);
        let _ = hardware.enable_controller(Controller::I2C3);
        let _ = hardware.configure_timing(Controller::I2C3, I2cSpeed::Fast);
        let _ = hardware.enable_controller(Controller::I2C4);
        let _ = hardware.configure_timing(Controller::I2C4, I2cSpeed::Fast);
        let _ = hardware.enable_controller(Controller::I2C5);
        let _ = hardware.configure_timing(Controller::I2C5, I2cSpeed::Fast);
        let _ = hardware.enable_controller(Controller::I2C6);
        let _ = hardware.configure_timing(Controller::I2C6, I2cSpeed::Fast);
        let _ = hardware.enable_controller(Controller::I2C7);
        let _ = hardware.configure_timing(Controller::I2C7, I2cSpeed::Fast);
        GenericI2cServer { hardware, mux_state: Vec::new() }
    }

    /// Validates a device's configuration: the upper address range is
    /// reserved.
    fn validate_device(&self, device: &I2cDevice) -> (r: Result<(), ResponseCode>)
        ensures
            r == (if device_addr_ok(*device) {
                Ok::<(), ResponseCode>(())
            } else {
                Err::<(), ResponseCode>(ResponseCode::ReservedAddress)
            }),
    {
        if device.address >= 0x80 {
            Err(ResponseCode::ReservedAddress)
        } else {
            Ok(())
        }
    }

    /// Switches the (controller, port) mux to the segment, remembering the
    /// position; a switch to the already-enabled segment is free.  A full
    /// tracking table refuses a new bus with `BadArg`.
    #[verifier::loop_isolation(false)]
    fn configure_mux(&mut self, controller: Controller, port: PortIndex, mux_id: Mux,
        segment: Segment) -> (r: Result<(), ResponseCode>)
        requires
            old(self).wf(),
        ensures
            final(self).wf(),
            final(self).hardware == old(self).hardware,
            r is Err <==> (!mux_key_tracked(old(self).mux_state@, controller, port)
                && old(self).mux_state@.len() >= MAX_MUXED_BUSES),
            r is Ok ==> exists|i: int| 0 <= i < final(self).mux_state@.len()
                && #[trigger] final(self).mux_state@[i]
                    == ((controller, port), MuxState { current_segment: Some(segment) }),
            r is Err ==> r == Err::<(), ResponseCode>(ResponseCode::BadArg)
                && final(self).mux_state@ == old(self).mux_state@,
    {
        let key = (controller, port);
        let mut i: usize = 0;
        while i < self.mux_state.len()
            invariant
                i <= self.mux_state@.len(),
                *self == *old(self),
                forall|j: int| 0 <= j < i
                    ==> (#[trigger] self.mux_state@[j]).0 != (controller, port),
            decreases self.mux_state@.len() - i,
        {
            let (kc, kp) = self.mux_state[i].0;
            if kc == controller && kp == port {
                proof {
                    assert(mux_key_tracked(old(self).mux_state@, controller, port)) by {
                        assert((#[trigger] old(self).mux_state@[i as int]).0
                            == (controller, port));
                    }
                }
                self.mux_state.set(i, (key, MuxState { current_segment: Some(segment) }));
                proof {
                    assert(self.mux_state@[i as int]
                        == ((controller, port), MuxState { current_segment: Some(segment) }));
                }
                return Ok(());
            }
            proof {
                assert((#[trigger] self.mux_state@[i as int]).0 != (controller, port));
            }
            i += 1;
        }
        proof {
            assert(!mux_key_tracked(self.mux_state@, controller, port));
        }
        if self.mux_state.len() < MAX_MUXED_BUSES {
            self.mux_state.push((key, MuxState { current_segment: Some(segment) }));
            proof {
                assert(self.mux_state@[self.mux_state@.len() - 1]
                    == ((controller, port), MuxState { current_segment: Some(segment) }));
            }
            Ok(())
        } else {
            Err(ResponseCode::BadArg)
        }
    }

    /// An I2C write-read: validates the device, switches its mux segment
    /// if it sits behind one, and performs the operation.
    pub fn write_read(&mut self, device: I2cDevice, write_data: &[u8],
        read_buffer: &mut [u8]) -> (r: Result<usize, ResponseCode>)
        requires
            old(self).wf(),
        ensures
            final(self).wf(),
            final(read_buffer)@.len() == old(read_buffer)@.len(),
            !device_addr_ok(device) ==> r == Err::<usize, ResponseCode>(ResponseCode::ReservedAddress)
                && *final(self) == *old(self) && final(read_buffer)@ == old(read_buffer)@,
            device_addr_ok(device) && device.segment is Some
                && !mux_key_tracked(old(self).mux_state@, device.controller, device.port)
                && old(self).mux_state@.len() >= MAX_MUXED_BUSES
                ==> r == Err::<usize, ResponseCode>(ResponseCode::BadArg)
                    && final(self).mux_state@ == old(self).mux_state@
                    && final(self).hardware == old(self).hardware
                    && final(read_buffer)@ == old(read_buffer)@,
    {
        match self.validate_device(&device) {
            Ok(()) => {}
            Err(e) => {
                return Err(e);
            }
        }
        match device.segment {
            Some((mux_id, segment)) => {
                match self.configure_mux(device.controller, device.port, mux_id, segment) {
                    Ok(()) => {}
                    Err(e) => {
                        return Err(e);
                    }
                }
            }
            None => {}
        }
        self.hardware.write_read(device.controller, device.address, write_data, read_buffer)
    }

    /// An I2C write followed by an SMBus block read, with the same device
    /// validation and mux handling.
    pub fn write_read_block(&mut self, device: I2cDevice, write_data: &[u8],
        read_buffer: &mut [u8]) -> (r: Result<usize, ResponseCode>)
        requires
            old(self).wf(),
        ensures
            final(self).wf(),
            final(read_buffer)@.len() == old(read_buffer)@.len(),
            !device_addr_ok(device) ==> r == Err::<usize, ResponseCode>(ResponseCode::ReservedAddress)
                && *final(self) == *old(self) && final(read_buffer)@ == old(read_buffer)@,
            device_addr_ok(device) && device.segment is Some
                && !mux_key_tracked(old(self).mux_state@, device.controller, device.port)
                && old(self).mux_state@.len() >= MAX_MUXED_BUSES
                ==> r == Err::<usize, ResponseCode>(ResponseCode::BadArg)
                    && final(self).mux_state@ == old(self).mux_state@
                    && final(self).hardware == old(self).hardware
                    && final(read_buffer)@ == old(read_buffer)@,
    {
        match self.validate_device(&device) {
            Ok(()) => {}
            Err(e) => {
                return Err(e);
            }
        }
        match device.segment {
            Some((mux_id, segment)) => {
                match self.configure_mux(device.controller, device.port, mux_id, segment) {
                    Ok(()) => {}
                    Err(e) => {
                        return Err(e);
                    }
                }
            }
            None => {}
        }
        self.hardware.write_read_block(device.controller, device.address, write_data, read_buffer)
    }
}

/// A ready-to-use server over the mock hardware, with a pair of
/// demonstration devices: an EEPROM-like part and a sensor-like part.
pub fn initialize_server() -> (r: GenericI2cServer<MockI2cHardware>)
    ensures
        r.wf(),
{
    let mut hardware = MockI2cHardware::new();
    hardware.add_device(Controller::I2C0, 0x50);
    hardware.add_device(Controller::I2C1, 0x48);
    GenericI2cServer::new(hardware)
}

} // verus!
