//! The controller manager: routes bus operations to per-controller driver
//! instances held in a fixed table.

use vstd::prelude::*;
use crate::i2c::{Controller, ResponseCode, SlaveConfig, I2cHardware};
use crate::i2c_mock::MockI2cHardware;

verus! {

/// Generic hardware description a platform provides for one controller.
pub trait I2cControllerHardware {
    /// The platform's peripheral description.
    type Peripheral;
    /// The platform's register block.
    type Registers;

    /// The peripheral this controller drives.
    fn peripheral(&self) -> &Self::Peripheral;

    /// The notification bit the controller's interrupt raises.
    fn notification(&self) -> u32;
}

/// A controller bound to its hardware description.
pub struct I2cController<'a, H: I2cControllerHardware> {
    /// Which controller this is.
    pub controller: Controller,
    /// The platform hardware behind it.
    pub hardware: &'a H,
}

/// The operations every managed controller instance supports.
pub trait I2cControllerOperations {
    /// Performs a write followed by a read.
    fn write_read(&mut self, addr: u8, write_data: &[u8], read_buffer: &mut [u8])
        -> Result<usize, ResponseCode>;

    /// Performs a write followed by an SMBus block read.
    fn write_read_block(&mut self, addr: u8, write_data: &[u8], read_buffer: &mut [u8])
        -> Result<usize, ResponseCode>;

    /// Configures slave (target) mode.
    fn configure_slave_mode(&mut self, config: &SlaveConfig) -> Result<(), ResponseCode>;

    /// Enables slave receive mode.
    fn enable_slave_receive(&mut self) -> Result<(), ResponseCode>;

    /// Disables slave receive mode.
    fn disable_slave_receive(&mut self) -> Result<(), ResponseCode>;
}

/// A mock instance behaves as controller 0 of the mock hardware.
impl I2cControllerOperations for MockI2cHardware {
    fn write_read(&mut self, addr: u8, write_data: &[u8], read_buffer: &mut [u8])
        -> Result<usize, ResponseCode>
    {
        I2cHardware::write_read(self, Controller::I2C0, addr, write_data, read_buffer)
    }

    fn write_read_block(&mut self, addr: u8, write_data: &[u8], read_buffer: &mut [u8])
        -> Result<usize, ResponseCode>
    {
        I2cHardware::write_read_block(self, Controller::I2C0, addr, write_data, read_buffer)
    }

    fn configure_slave_mode(&mut self, config: &SlaveConfig) -> Result<(), ResponseCode> {
        Ok(())
    }

    fn enable_slave_receive(&mut self) -> Result<(), ResponseCode> {
        Ok(())
    }

    fn disable_slave_receive(&mut self) -> Result<(), ResponseCode> {
        Ok(())
    }
}

/// How many controllers the manager can hold.
pub const MANAGED_CONTROLLERS: usize = 8;

/// Whether a controller can be managed: only the eight hardware
/// controllers have a slot.
pub open spec fn manageable(c: Controller) -> bool {
    c.index_spec() < 8
}

/// Routes operations to per-controller instances.
pub struct I2cControllerManager<C: I2cControllerOperations> {
    /// Instances, indexed by controller; the length stays
    /// `MANAGED_CONTROLLERS`.
    pub controllers: Vec<Option<C>>,
}

impl<C: I2cControllerOperations> I2cControllerManager<C> {
    /// The table keeps its fixed size.
    pub open spec fn wf(self) -> bool {
        self.controllers@.len() == MANAGED_CONTROLLERS
    }

    /// An empty manager.
    pub fn new() -> (r: I2cControllerManager<C>)
        ensures
            r.wf(),
            forall|i: int| 0 <= i < r.controllers@.len() ==> r.controllers@[i] is None,
    {
        let mut controllers: Vec<Option<C>> = Vec::new();
        let mut i: usize = 0;
        while i < MANAGED_CONTROLLERS
            invariant
                i <= MANAGED_CONTROLLERS,
                controllers@.len() == i,
                forall|j: int| 0 <= j < i ==> controllers@[j] is None,
            decreases MANAGED_CONTROLLERS - i,
        {
            controllers.push(None);
            i += 1;
        }
        I2cControllerManager { controllers }
    }

    /// Adds an instance for a controller; a second instance for the same
    /// controller, or the mock pseudo-controller, is refused.
    pub fn add_controller(&mut self, controller_id: Controller, controller: C)
        -> (r: Result<(), ()>)
        requires
            old(self).wf(),
        ensures
            final(self).wf(),
            !manageable(controller_id) || old(self).controllers@[controller_id.index_spec() as int] is Some
                ==> r == Err::<(), ()>(()) && final(self).controllers@ == old(self).controllers@,
            manageable(controller_id) && old(self).controllers@[controller_id.index_spec() as int] is None
                ==> r == Ok::<(), ()>(())
                    && final(self).controllers@[controller_id.index_spec() as int] is Some
                    && forall|j: int| 0 <= j < MANAGED_CONTROLLERS
                        && j != controller_id.index_spec() as int
                        ==> final(self).controllers@[j] == old(self).controllers@[j],
    {
        let index = controller_id.index();
        if index >= 8 {
            return Err(());
        }
        if self.controllers[index as usize].is_some() {
            return Err(());
        }
        self.controllers.set(index as usize, Some(controller));
        Ok(())
    }

    /// Routes a write-read to the controller's instance; a missing
    /// instance is `BadController`.
    pub fn handle_write_read(&mut self, controller_id: Controller, addr: u8,
        write_data: &[u8], read_buffer: &mut [u8]) -> (r: Result<usize, ResponseCode>)
        requires
            old(self).wf(),
        ensures
            final(self).wf(),
            !manageable(controller_id)
                || old(self).controllers@[controller_id.index_spec() as int] is None
                ==> r == Err::<usize, ResponseCode>(ResponseCode::BadController)
                    && final(read_buffer)@ == old(read_buffer)@,
    {
        let index = controller_id.index();
        if index >= 8 {
            return Err(ResponseCode::BadController);
        }
        let mut slot = take_slot(&mut self.controllers, index as usize);
        match slot {
            None => Err(ResponseCode::BadController),
            Some(mut c) => {
                let r = c.write_read(addr, write_data, read_buffer);
                self.controllers.set(index as usize, Some(c));
                r
            }
        }
    }

    /// Routes a slave-mode configuration to the controller's instance.
    pub fn handle_configure_slave_mode(&mut self, controller_id: Controller,
        config: &SlaveConfig) -> (r: Result<(), ResponseCode>)
        requires
            old(self).wf(),
        ensures
            final(self).wf(),
            !manageable(controller_id)
                || old(self).controllers@[controller_id.index_spec() as int] is None
                ==> r == Err::<(), ResponseCode>(ResponseCode::BadController),
    {
        let index = controller_id.index();
        if index >= 8 {
            return Err(ResponseCode::BadController);
        }
        let mut slot = take_slot(&mut self.controllers, index as usize);
        match slot {
            None => Err(ResponseCode::BadController),
            Some(mut c) => {
                let r = c.configure_slave_mode(config);
                self.controllers.set(index as usize, Some(c));
                r
            }
        }
    }

    /// Routes a slave-receive enable to the controller's instance.
    pub fn handle_enable_slave_receive(&mut self, controller_id: Controller)
        -> (r: Result<(), ResponseCode>)
        requires
            old(self).wf(),
        ensures
            final(self).wf(),
            !manageable(controller_id)
                || old(self).controllers@[controller_id.index_spec() as int] is None
                ==> r == Err::<(), ResponseCode>(ResponseCode::BadController),
    {
        let index = controller_id.index();
        if index >= 8 {
            return Err(ResponseCode::BadController);
        }
        let mut slot = take_slot(&mut self.controllers, index as usize);
        match slot {
            None => Err(ResponseCode::BadController),
            Some(mut c) => {
                let r = c.enable_slave_receive();
                self.controllers.set(index as usize, Some(c));
                r
            }
        }
    }
}

/// Takes the element at `i` out of an option table, leaving `None`.
fn take_slot<T>(v: &mut Vec<Option<T>>, i: usize) -> (r: Option<T>)
    requires
        i < old(v)@.len(),
    ensures
        r == old(v)@[i as int],
        final(v)@ == old(v)@.update(i as int, None::<T>),
{
    let mut tmp: Option<T> = None;
    core::mem::swap(&mut tmp, &mut v[i]);
    tmp
}

} // verus!
