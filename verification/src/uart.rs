//! Data model of the UART driver: receive errors, interrupt decoding, and
//! baud-rate divisors.  The register accesses themselves are the event
//! loop's hardware work; the decisions about what the registers said live
//! here.

use vstd::prelude::*;

verus! {

/// Receive-path errors the UART reports.
#[derive(Clone, Copy, Debug, PartialEq, Eq, Structural)]
pub enum Error {
    /// A framing error was detected.
    Frame,
    /// A parity error was detected.
    Parity,
    /// Line noise was detected.
    Noise,
    /// The receive buffer is full.
    BufFull,
}

/// What a pending UART interrupt means, decoded from the low bits of the
/// interrupt identification register.
#[derive(Clone, Copy, Debug, PartialEq, Eq, Structural)]
pub enum InterruptDecoding {
    ModemStatusChange,
    TxEmpty,
    RxDataAvailable,
    LineStatusChange,
    CharacterTimeout,
    Unknown,
}

impl InterruptDecoding {
    /// Decodes the low three bits of the interrupt identification
    /// register; values the part does not define decode to `Unknown`.
    pub fn from_bits(value: u8) -> (r: InterruptDecoding)
        ensures
            r == (match value % 8 {
                0u8 => InterruptDecoding::ModemStatusChange,
                1u8 => InterruptDecoding::TxEmpty,
                2u8 => InterruptDecoding::RxDataAvailable,
                3u8 => InterruptDecoding::LineStatusChange,
                6u8 => InterruptDecoding::CharacterTimeout,
                _ => InterruptDecoding::Unknown,
            }),
    {
        match value % 8 {
            0 => InterruptDecoding::ModemStatusChange,
            1 => InterruptDecoding::TxEmpty,
            2 => InterruptDecoding::RxDataAvailable,
            3 => InterruptDecoding::LineStatusChange,
            6 => InterruptDecoding::CharacterTimeout,
            _ => InterruptDecoding::Unknown,
        }
    }

    /// Whether this interrupt means received bytes wait to be read.
    pub fn wants_rx(&self) -> (r: bool)
        ensures
            r == (*self == InterruptDecoding::RxDataAvailable
                || *self == InterruptDecoding::CharacterTimeout),
    {
        match self {
            InterruptDecoding::RxDataAvailable => true,
            InterruptDecoding::CharacterTimeout => true,
            _ => false,
        }
    }
}

/// Receive-path errors of the serial packet handler.
#[derive(Clone, Copy, Debug, PartialEq, Eq, Structural)]
pub enum UartError {
    /// No data was waiting.
    RxNoData,
    /// The read timed out.
    RxTimeout,
}

/// The baud rates the driver offers.
#[derive(Clone, Copy, Debug, PartialEq, Eq, Structural)]
pub enum Rate {
    Baud9600,
    Baud19200,
    MBaud1_5,
}

impl Rate {
    /// The divisor latch bytes (high, low) for this rate, assuming a
    /// 24 MHz UART clock: divisor = 24M / (13 * 16 * baud rate).
    pub fn divisor(&self) -> (r: (u8, u8))
        ensures
            r == (match self {
                Rate::Baud9600 => (0u8, 12u8),
                Rate::Baud19200 => (0u8, 6u8),
                Rate::MBaud1_5 => (0u8, 1u8),
            }),
    {
        match self {
            Rate::Baud9600 => (0, 12),
            Rate::Baud19200 => (0, 6),
            Rate::MBaud1_5 => (0, 1),
        }
    }
}


/// The length of the message in a received buffer: the bytes before the
/// first zero byte, or the whole buffer when none is zero.
pub fn received_len(data: &[u8]) -> (r: usize)
    ensures
        r <= data@.len(),
        forall|i: int| 0 <= i < r ==> data@[i] != 0,
        r < data@.len() ==> data@[r as int] == 0,
{
    let mut i: usize = 0;
    while i < data.len()
        invariant
            i <= data@.len(),
            forall|j: int| 0 <= j < i ==> data@[j] != 0,
        decreases data@.len() - i,
    {
        if data[i] == 0 {
            return i;
        }
        i += 1;
    }
    data.len()
}

} // verus!
