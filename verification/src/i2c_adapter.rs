//! The adapter between a raw I2C controller — the register-level interface
//! a platform implements — and the I2C server's hardware abstraction:
//! error mapping, transaction counting, and the SMBus block-read protocol.

use vstd::prelude::*;
use vstd::slice::SliceAdditionalExecFns;
use crate::i2c::{Controller, ResponseCode, SlaveConfig, SlaveStatus, I2cSpeed, I2cHardware};

verus! {

/// Errors a raw I2C controller reports.
#[derive(Clone, Copy, Debug, PartialEq, Eq, Structural)]
pub enum MockI2cError {
    /// A bus error was detected.
    Bus,
    /// Bus arbitration was lost.
    ArbitrationLoss,
    /// The target did not acknowledge.
    NoAcknowledge,
    /// Some other failure.
    Other,
}

/// The response code a raw error surfaces as.
pub open spec fn raw_error_code(e: MockI2cError) -> ResponseCode {
    match e {
        MockI2cError::Bus => ResponseCode::BusError,
        MockI2cError::ArbitrationLoss => ResponseCode::BusLocked,
        MockI2cError::NoAcknowledge => ResponseCode::NoDevice,
        MockI2cError::Other => ResponseCode::BadDeviceState,
    }
}

impl From<MockI2cError> for ResponseCode {
    /// Maps a raw error to the server's response-code taxonomy.
    fn from(e: MockI2cError) -> (r: ResponseCode) {
        match e {
            MockI2cError::Bus => ResponseCode::BusError,
            MockI2cError::ArbitrationLoss => ResponseCode::BusLocked,
            MockI2cError::NoAcknowledge => ResponseCode::NoDevice,
            MockI2cError::Other => ResponseCode::BadDeviceState,
        }
    }
}

impl vstd::std_specs::convert::FromSpecImpl<MockI2cError> for ResponseCode {
    open spec fn obeys_from_spec() -> bool {
        true
    }

    open spec fn from_spec(e: MockI2cError) -> ResponseCode {
        raw_error_code(e)
    }
}

/// Raw slave-mode status, as a controller reports it.
#[derive(Clone, Copy, Debug, PartialEq, Eq, Structural)]
pub struct RawSlaveStatus {
    pub enabled: bool,
    pub error: bool,
    pub rx_buffer_count: usize,
    pub tx_buffer_count: usize,
    pub address_matched: bool,
    pub data_available: bool,
}

/// A raw I2C controller: the register-level interface a platform
/// implements, consumed here at its boundary.
pub trait RawI2cHardware {
    /// Performs a write followed by a read; a read never resizes the
    /// caller's buffer.
    fn write_read(&mut self, addr: u8, write_data: &[u8], read_buffer: &mut [u8])
        -> (r: Result<(), MockI2cError>)
        ensures
            final(read_buffer)@.len() == old(read_buffer)@.len(),
    ;

    /// Recovers a locked bus.
    fn recover_bus(&mut self) -> Result<(), MockI2cError>;

    /// Enables slave (target) mode.
    fn enable_slave_mode(&mut self) -> Result<(), MockI2cError>;

    /// Disables slave (target) mode.
    fn disable_slave_mode(&mut self) -> Result<(), MockI2cError>;

    /// Polls for received slave data; `Some(n)` means `n` bytes wait.
    fn poll_slave_data(&mut self) -> Result<Option<usize>, MockI2cError>;

    /// Reads the slave-mode status.
    fn get_slave_status(&self) -> Result<RawSlaveStatus, MockI2cError>;
}

/// A raw-hardware mock: configured device responses, injected errors, and
/// a slave-mode flag.
pub struct MockI2cHardware {
    /// Per-address read responses.
    pub responses: Vec<(u8, Vec<u8>)>,
    /// Per-address injected errors, each consumed by one operation.
    pub injected: Vec<(u8, MockI2cError)>,
    /// Whether slave mode is enabled.
    pub slave_enabled: bool,
}

impl MockI2cHardware {
    /// A mock with no devices and no injected errors.
    pub fn new() -> (r: MockI2cHardware)
        ensures
            r.responses@.len() == 0,
            r.injected@.len() == 0,
            !r.slave_enabled,
    {
        MockI2cHardware { responses: Vec::new(), injected: Vec::new(), slave_enabled: false }
    }

    /// Configures the bytes a device answers reads with.
    pub fn configure_response(&mut self, addr: u8, response: &[u8])
        ensures
            final(self).responses@.len() == old(self).responses@.len() + 1,
    {
        let data = vstd::slice::slice_to_vec(response);
        self.responses.push((addr, data));
    }

    /// Injects an error for the next operation on an address.
    pub fn inject(&mut self, addr: u8, error: MockI2cError)
        ensures
            final(self).injected@.len() == old(self).injected@.len() + 1,
    {
        self.injected.push((addr, error));
    }

    /// Removes every configured response and injected error.
    pub fn clear(&mut self)
        ensures
            final(self).responses@.len() == 0,
            final(self).injected@.len() == 0,
    {
        self.responses = Vec::new();
        self.injected = Vec::new();
    }

    /// Takes a pending injected error for an address, if one waits.
    fn take_injected(&mut self, addr: u8) -> (r: Option<MockI2cError>) {
        let mut i: usize = 0;
        while i < self.injected.len()
            invariant
                i <= self.injected@.len(),
            decreases self.injected@.len() - i,
        {
            if self.injected[i].0 == addr {
                let (_, e) = self.injected.remove(i);
                return Some(e);
            }
            i += 1;
        }
        None
    }

    /// The latest configured response for an address, if any.
    fn find_response(&self, addr: u8) -> (r: Option<usize>)
        ensures
            r matches Some(i) ==> i < self.responses@.len() && self.responses@[i as int].0 == addr,
    {
        let mut i: usize = self.responses.len();
        while i > 0
            invariant
                i <= self.responses@.len(),
            decreases i,
        {
            i -= 1;
            if self.responses[i].0 == addr {
                return Some(i);
            }
        }
        None
    }
}

impl RawI2cHardware for MockI2cHardware {
    /// An injected error fires first; otherwise a configured device
    /// answers with its response bytes, and an unknown address does not
    /// acknowledge.
    fn write_read(&mut self, addr: u8, write_data: &[u8], read_buffer: &mut [u8])
        -> Result<(), MockI2cError>
    {
        match self.take_injected(addr) {
            Some(e) => Err(e),
            None => {
                match self.find_response(addr) {
                    Some(at) => {
                        let n = if self.responses[at].1.len() < read_buffer.len() {
                            self.responses[at].1.len()
                        } else {
                            read_buffer.len()
                        };
                        let mut i: usize = 0;
                        while i < n
                            invariant
                                i <= n,
                                at < self.responses@.len(),
                                n <= self.responses@[at as int].1@.len(),
                                n <= read_buffer@.len(),
                                read_buffer@.len() == old(read_buffer)@.len(),
                            decreases n - i,
                        {
                            let b = self.responses[at].1[i];
                            read_buffer.set(i, b);
                            i += 1;
                        }
                        Ok(())
                    }
                    None => {
                        if write_data.len() == 0 && read_buffer.len() == 0 {
                            Ok(())
                        } else {
                            Err(MockI2cError::NoAcknowledge)
                        }
                    }
                }
            }
        }
    }

    fn recover_bus(&mut self) -> Result<(), MockI2cError> {
        Ok(())
    }

    fn enable_slave_mode(&mut self) -> Result<(), MockI2cError> {
        self.slave_enabled = true;
        Ok(())
    }

    fn disable_slave_mode(&mut self) -> Result<(), MockI2cError> {
        self.slave_enabled = false;
        Ok(())
    }

    fn poll_slave_data(&mut self) -> Result<Option<usize>, MockI2cError> {
        Ok(None)
    }

    fn get_slave_status(&self) -> Result<RawSlaveStatus, MockI2cError> {
        Ok(RawSlaveStatus {
            enabled: self.slave_enabled,
            error: false,
            rx_buffer_count: 0,
            tx_buffer_count: 0,
            address_matched: false,
            data_available: false,
        })
    }
}

/// Parses an SMBus block-read answer: the first byte counts the data bytes
/// that follow.  A count over the SMBus limit of 32, or over the caller's
/// buffer, is `TooMuchData`; otherwise the data bytes are copied out and
/// their number returned.
pub fn parse_smbus_block(temp: &[u8], read_buffer: &mut [u8]) -> (r: Result<usize, ResponseCode>)
    requires
        temp@.len() >= 33,
    ensures
        final(read_buffer)@.len() == old(read_buffer)@.len(),
        ({
            let count = temp@[0] as int;
            if count == 0 {
                r == Ok::<usize, ResponseCode>(0) && final(read_buffer)@ == old(read_buffer)@
            } else if count > 32 || count > old(read_buffer)@.len() {
                r == Err::<usize, ResponseCode>(ResponseCode::TooMuchData)
                    && final(read_buffer)@ == old(read_buffer)@
            } else {
                r == Ok::<usize, ResponseCode>(count as usize)
                    && final(read_buffer)@ =~= temp@.subrange(1, count + 1)
                        + old(read_buffer)@.skip(count)
            }
        }),
{
    let byte_count = temp[0] as usize;
    if byte_count == 0 {
        return Ok(0);
    }
    if byte_count > 32 {
        return Err(ResponseCode::TooMuchData);
    }
    if byte_count > read_buffer.len() {
        return Err(ResponseCode::TooMuchData);
    }
    let mut i: usize = 0;
    while i < byte_count
        invariant
            i <= byte_count,
            byte_count + 1 <= temp@.len(),
            byte_count <= read_buffer@.len(),
            read_buffer@.len() == old(read_buffer)@.len(),
            forall|j: int| 0 <= j < i ==> read_buffer@[j] == temp@[j + 1],
            forall|j: int| i <= j < read_buffer@.len()
                ==> read_buffer@[j] == old(read_buffer)@[j],
        decreases byte_count - i,
    {
        let b = temp[i + 1];
        read_buffer.set(i, b);
        i += 1;
    }
    proof {
        assert(read_buffer@ =~= temp@.subrange(1, byte_count + 1)
            + old(read_buffer)@.skip(byte_count as int));
    }
    Ok(byte_count)
}

/// The adapter: wraps a raw controller to offer the server's hardware
/// abstraction, counting transactions and mapping errors.
pub struct OpenProtI2cAdapter<H: RawI2cHardware> {
    /// The wrapped raw controller.
    pub inner: H,
    /// Which controller this adapter stands for.
    pub controller_id: Controller,
    /// How many transactions have been attempted.
    pub transaction_count: u32,
}

impl<H: RawI2cHardware> OpenProtI2cAdapter<H> {
    /// A new adapter around a raw controller.
    pub fn new(controller_id: Controller, hardware: H) -> (r: OpenProtI2cAdapter<H>)
        ensures
            r.controller_id == controller_id,
            r.transaction_count == 0,
            r.inner == hardware,
    {
        OpenProtI2cAdapter { inner: hardware, controller_id, transaction_count: 0 }
    }

    /// The controller this adapter stands for.
    pub fn controller_id(&self) -> (r: Controller)
        ensures
            r == self.controller_id,
    {
        self.controller_id
    }

    /// How many transactions have been attempted.
    pub fn transaction_count(&self) -> (r: u32)
        ensures
            r == self.transaction_count,
    {
        self.transaction_count
    }

    /// Bus statistics; the raw interface exposes none, so the counts are
    /// zero.
    pub fn get_bus_stats(&self) -> (r: (u32, u32, u32))
        ensures
            r == (0u32, 0u32, 0u32),
    {
        (0, 0, 0)
    }

    /// Configures slave mode; the raw interface carries no per-config
    /// state, so any valid configuration is accepted.
    pub fn configure_slave_mode(&mut self, controller: Controller, config: &SlaveConfig)
        -> (r: Result<(), ResponseCode>)
        ensures
            r == Ok::<(), ResponseCode>(()),
            *final(self) == *old(self),
    {
        Ok(())
    }

    /// Enables slave receive mode on the raw controller.
    pub fn enable_slave_receive(&mut self, controller: Controller) -> Result<(), ResponseCode> {
        match self.inner.enable_slave_mode() {
            Ok(()) => Ok(()),
            Err(e) => Err(ResponseCode::from(e)),
        }
    }

    /// Disables slave receive mode on the raw controller.
    pub fn disable_slave_receive(&mut self, controller: Controller) -> Result<(), ResponseCode> {
        match self.inner.disable_slave_mode() {
            Ok(()) => Ok(()),
            Err(e) => Err(ResponseCode::from(e)),
        }
    }

    /// Reads and translates the raw slave status.
    pub fn get_slave_status(&self, controller: Controller) -> Result<SlaveStatus, ResponseCode> {
        match self.inner.get_slave_status() {
            Ok(raw) => Ok(SlaveStatus {
                enabled: raw.enabled,
                messages_received: 0,
                messages_dropped: 0,
                address_matches: 0,
                bus_errors: if raw.error { 1 } else { 0 },
                buffer_full: raw.rx_buffer_count >= 256,
            }),
            Err(e) => Err(ResponseCode::from(e)),
        }
    }
}

impl OpenProtI2cAdapter<MockI2cHardware> {
    /// Configures the bytes the mock answers reads from `addr` with.
    pub fn configure_device_response(&mut self, addr: u8, response: &[u8])
        -> (r: Result<(), ResponseCode>)
        ensures
            r == Ok::<(), ResponseCode>(()),
    {
        self.inner.configure_response(addr, response);
        Ok(())
    }

    /// Injects an error for the next operation on `addr`.
    pub fn inject_error(&mut self, addr: u8, error: MockI2cError)
        -> (r: Result<(), ResponseCode>)
        ensures
            r == Ok::<(), ResponseCode>(()),
    {
        self.inner.inject(addr, error);
        Ok(())
    }

    /// Clears every configured response and injected error.
    pub fn clear_all_devices(&mut self) {
        self.inner.clear();
    }
}

impl<H: RawI2cHardware> I2cHardware for OpenProtI2cAdapter<H> {
    /// Counts the transaction, performs the raw write-read and maps any
    /// raw error into the response-code taxonomy.
    fn write_read(
        &mut self,
        controller: Controller,
        addr: u8,
        write_data: &[u8],
        read_buffer: &mut [u8],
    ) -> (r: Result<usize, ResponseCode>)
        ensures
            final(self).transaction_count
                == ((old(self).transaction_count + 1) % 0x1_0000_0000) as u32,
            final(self).controller_id == old(self).controller_id,
            r matches Ok(n) ==> n == old(read_buffer)@.len(),
    {
        self.transaction_count = self.transaction_count.wrapping_add(1);
        match self.inner.write_read(addr, write_data, read_buffer) {
            Ok(()) => Ok(read_buffer.len()),
            Err(e) => Err(ResponseCode::from(e)),
        }
    }

    /// Counts the transaction and performs the SMBus block-read protocol:
    /// a command write, a raw read of count-plus-data, and the parse of
    /// the block answer.
    fn write_read_block(
        &mut self,
        controller: Controller,
        addr: u8,
        write_data: &[u8],
        read_buffer: &mut [u8],
    ) -> (r: Result<usize, ResponseCode>)
        ensures
            final(self).transaction_count
                == ((old(self).transaction_count + 1) % 0x1_0000_0000) as u32,
            final(self).controller_id == old(self).controller_id,
            write_data@.len() == 0 ==> r == Err::<usize, ResponseCode>(ResponseCode::BadArg),
    {
        self.transaction_count = self.transaction_count.wrapping_add(1);
        if write_data.len() == 0 {
            return Err(ResponseCode::BadArg);
        }
        let mut temp: Vec<u8> = Vec::new();
        let mut i: usize = 0;
        while i < 33
            invariant
                i <= 33,
                temp@.len() == i,
            decreases 33 - i,
        {
            temp.push(0);
            i += 1;
        }
        match self.inner.write_read(addr, write_data, temp.as_mut_slice()) {
            Ok(()) => parse_smbus_block(temp.as_slice(), read_buffer),
            Err(e) => Err(ResponseCode::from(e)),
        }
    }

    fn configure_timing(&mut self, controller: Controller, speed: I2cSpeed)
        -> Result<(), ResponseCode>
    {
        Ok(())
    }

    fn reset_bus(&mut self, controller: Controller) -> Result<(), ResponseCode> {
        match self.inner.recover_bus() {
            Ok(()) => Ok(()),
            Err(e) => Err(ResponseCode::from(e)),
        }
    }

    fn enable_controller(&mut self, controller: Controller) -> Result<(), ResponseCode> {
        Ok(())
    }

    fn disable_controller(&mut self, controller: Controller) -> Result<(), ResponseCode> {
        Ok(())
    }
}

} // verus!
