//! A minimal mock of the I2C hardware, for exercising the server's
//! protocol handling without a bus: a list of responding devices, an
//! enable bit per controller, and one-shot error injection.

use vstd::prelude::*;
use vstd::slice::SliceAdditionalExecFns;
use crate::i2c::{Controller, ResponseCode, ReservedAddress, I2cSpeed, I2cHardware, addr_reserved};

verus! {

/// How many responding devices the mock can hold.
pub const MOCK_DEVICES: usize = 8;

/// Minimal mock I2C hardware.
pub struct MockI2cHardware {
    /// Device list: the (controller, address) pairs that respond; at most
    /// `MOCK_DEVICES` entries.
    pub responding_devices: Vec<(Controller, u8)>,
    /// Controller enable state: bit N set means controller N is enabled.
    pub enabled_controllers: u8,
    /// Forces the next operation to fail with this error.
    pub force_error: Option<ResponseCode>,
}

/// Whether a device at (controller, addr) responds.
pub open spec fn device_responds_spec(m: MockI2cHardware, controller: Controller, addr: u8) -> bool {
    exists|i: int| 0 <= i < m.responding_devices@.len()
        && #[trigger] m.responding_devices@[i] == (controller, addr)
}

/// Whether a controller's enable bit is set.
pub open spec fn controller_enabled_spec(mask: u8, controller: Controller) -> bool {
    controller.index_spec() < 8 && ((mask >> controller.index_spec()) & 1) == 1
}

/// The byte the mock writes at offset `i` of a read from `addr`: a
/// predictable pattern, the address plus the offset plus 0x10, wrapping.
pub open spec fn mock_byte(addr: u8, i: int) -> u8 {
    (((addr + (i % 256)) % 256 + 0x10) % 256) as u8
}

impl MockI2cHardware {
    /// A mock with no devices, no controller enabled and no forced error.
    pub fn new() -> (r: MockI2cHardware)
        ensures
            r.responding_devices@.len() == 0,
            r.enabled_controllers == 0,
            r.force_error is None,
    {
        MockI2cHardware {
            responding_devices: Vec::new(),
            enabled_controllers: 0,
            force_error: None,
        }
    }

    /// Adds a device that will respond; a full table ignores the addition.
    pub fn add_device(&mut self, controller: Controller, addr: u8)
        ensures
            old(self).responding_devices@.len() < MOCK_DEVICES
                ==> final(self).responding_devices@
                    == old(self).responding_devices@.push((controller, addr)),
            old(self).responding_devices@.len() >= MOCK_DEVICES ==> *final(self) == *old(self),
            final(self).enabled_controllers == old(self).enabled_controllers,
            final(self).force_error == old(self).force_error,
    {
        if self.responding_devices.len() < MOCK_DEVICES {
            self.responding_devices.push((controller, addr));
        }
    }

    /// Makes the next operation fail with the given error.
    pub fn inject_error(&mut self, error: ResponseCode)
        ensures
            *final(self) == (MockI2cHardware { force_error: Some(error), ..*old(self) }),
    {
        self.force_error = Some(error);
    }

    /// Whether a device at (controller, addr) responds.
    fn device_responds(&self, controller: Controller, addr: u8) -> (r: bool)
        ensures
            r == device_responds_spec(*self, controller, addr),
    {
        let mut i: usize = 0;
        while i < self.responding_devices.len()
            invariant
                i <= self.responding_devices@.len(),
                forall|j: int| 0 <= j < i
                    ==> #[trigger] self.responding_devices@[j] != (controller, addr),
            decreases self.responding_devices@.len() - i,
        {
            let (dev_controller, dev_addr) = self.responding_devices[i];
            if dev_controller == controller && dev_addr == addr {
                proof {
                    assert(self.responding_devices@[i as int] == (controller, addr));
                }
                return true;
            }
            i += 1;
        }
        false
    }

    /// Whether a controller's enable bit is set.
    fn controller_enabled(&self, controller: Controller) -> (r: bool)
        ensures
            r == controller_enabled_spec(self.enabled_controllers, controller),
    {
        let bit = controller.index();
        if bit < 8 {
            let hit = (self.enabled_controllers & (1u8 << bit)) != 0;
            proof {
                let m = self.enabled_controllers;
                assert((m & (1u8 << bit)) != 0 <==> ((m >> bit) & 1) == 1) by (bit_vector)
                    requires bit < 8,
                ;
            }
            hit
        } else {
            false
        }
    }
}

impl I2cHardware for MockI2cHardware {
    /// A write-read on the mock: a forced error fires first and is
    /// consumed; a disabled controller, a reserved address, and an unknown
    /// device are each refused; otherwise the read buffer is filled with
    /// the predictable pattern and its length is returned.
    fn write_read(
        &mut self,
        controller: Controller,
        addr: u8,
        write_data: &[u8],
        read_buffer: &mut [u8],
    ) -> (r: Result<usize, ResponseCode>)
        ensures
            match old(self).force_error {
                Some(e) => r == Err::<usize, ResponseCode>(e)
                    && *final(self) == (MockI2cHardware { force_error: None, ..*old(self) })
                    && final(read_buffer)@ == old(read_buffer)@,
                None => {
                    &&& *final(self) == *old(self)
                    &&& if !controller_enabled_spec(old(self).enabled_controllers, controller) {
                        r == Err::<usize, ResponseCode>(ResponseCode::BadController)
                            && final(read_buffer)@ == old(read_buffer)@
                    } else if addr_reserved(addr) {
                        r == Err::<usize, ResponseCode>(ResponseCode::ReservedAddress)
                            && final(read_buffer)@ == old(read_buffer)@
                    } else if !device_responds_spec(*old(self), controller, addr) {
                        r == Err::<usize, ResponseCode>(ResponseCode::NoDevice)
                            && final(read_buffer)@ == old(read_buffer)@
                    } else {
                        r == Ok::<usize, ResponseCode>(old(read_buffer)@.len() as usize)
                            && final(read_buffer)@.len() == old(read_buffer)@.len()
                            && forall|i: int| 0 <= i < final(read_buffer)@.len()
                                ==> final(read_buffer)@[i] == mock_byte(addr, i)
                    }
                },
            },
    {
        if self.force_error.is_some() {
            let error = self.force_error.unwrap();
            self.force_error = None;
            return Err(error);
        }
        if !self.controller_enabled(controller) {
            return Err(ResponseCode::BadController);
        }
        if ReservedAddress::from_u8(addr).is_some() {
            return Err(ResponseCode::ReservedAddress);
        }
        if !self.device_responds(controller, addr) {
            return Err(ResponseCode::NoDevice);
        }
        let bytes_read = read_buffer.len();
        let mut i: usize = 0;
        while i < bytes_read
            invariant
                i <= bytes_read,
                bytes_read == read_buffer@.len(),
                forall|j: int| 0 <= j < i ==> read_buffer@[j] == mock_byte(addr, j),
            decreases bytes_read - i,
        {
            let b = ((addr as usize + i % 256) % 256 + 0x10) % 256;
            read_buffer.set(i, b as u8);
            i += 1;
        }
        Ok(bytes_read)
    }

    /// On the mock, a block read behaves as a plain read.
    fn write_read_block(
        &mut self,
        controller: Controller,
        addr: u8,
        write_data: &[u8],
        read_buffer: &mut [u8],
    ) -> (r: Result<usize, ResponseCode>)
    {
        self.write_read(controller, addr, write_data, read_buffer)
    }

    /// The mock needs no timing configuration.
    fn configure_timing(&mut self, controller: Controller, speed: I2cSpeed)
        -> (r: Result<(), ResponseCode>)
        ensures
            r == Ok::<(), ResponseCode>(()),
            *final(self) == *old(self),
    {
        Ok(())
    }

    /// Resetting the mock's bus clears any forced error.
    fn reset_bus(&mut self, controller: Controller) -> (r: Result<(), ResponseCode>)
        ensures
            r == Ok::<(), ResponseCode>(()),
            *final(self) == (MockI2cHardware { force_error: None, ..*old(self) }),
    {
        self.force_error = None;
        Ok(())
    }

    /// Sets a hardware controller's enable bit; the mock pseudo-controller
    /// is refused.
    fn enable_controller(&mut self, controller: Controller) -> (r: Result<(), ResponseCode>)
        ensures
            controller.index_spec() < 8 ==> r == Ok::<(), ResponseCode>(())
                && *final(self) == (MockI2cHardware {
                    enabled_controllers:
                        (old(self).enabled_controllers | (1u8 << controller.index_spec())),
                    ..*old(self)
                })
                && controller_enabled_spec(final(self).enabled_controllers, controller),
            controller.index_spec() >= 8 ==> r == Err::<(), ResponseCode>(ResponseCode::BadController)
                && *final(self) == *old(self),
    {
        let bit = controller.index();
        if bit < 8 {
            self.enabled_controllers = self.enabled_controllers | (1u8 << bit);
            proof {
                let m = old(self).enabled_controllers;
                assert((((m | (1u8 << bit)) >> bit) & 1) == 1) by (bit_vector)
                    requires bit < 8,
                ;
            }
            Ok(())
        } else {
            Err(ResponseCode::BadController)
        }
    }

    /// Clears a hardware controller's enable bit.
    fn disable_controller(&mut self, controller: Controller) -> (r: Result<(), ResponseCode>)
        ensures
            controller.index_spec() < 8 ==> r == Ok::<(), ResponseCode>(())
                && *final(self) == (MockI2cHardware {
                    enabled_controllers:
                        (old(self).enabled_controllers & !(1u8 << controller.index_spec())),
                    ..*old(self)
                })
                && !controller_enabled_spec(final(self).enabled_controllers, controller),
            controller.index_spec() >= 8 ==> r == Err::<(), ResponseCode>(ResponseCode::BadController)
                && *final(self) == *old(self),
    {
        let bit = controller.index();
        if bit < 8 {
            self.enabled_controllers = self.enabled_controllers & !(1u8 << bit);
            proof {
                let m = old(self).enabled_controllers;
                assert((((m & !(1u8 << bit)) >> bit) & 1) == 0) by (bit_vector)
                    requires bit < 8,
                ;
            }
            Ok(())
        } else {
            Err(ResponseCode::BadController)
        }
    }
}

} // verus!
