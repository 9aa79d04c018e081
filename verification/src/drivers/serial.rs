//! The serial line: what to write to its ports, and what to make of what
//! they read.

use crate::arch::x86_64::interrupts::apic::PortWrite;
use vstd::prelude::*;

verus! {

/// The first port of the first serial line.
pub const PORT: u16 = 0x3f8;

/// What probes for the serial line: a byte written to its scratch
/// register, which has to read back.
pub fn probe_write() -> (r: PortWrite)
    ensures
        r == (PortWrite { port: 0x3ff, value: 0x42 }),
{
    PortWrite { port: PORT + 7, value: 0x42 }
}

/// What sets the serial line up and puts it in loopback mode with a test
/// byte in flight: interrupts off, the divisor set for 38400 baud, 8 bits
/// without parity and one stop bit, the FIFO on, and the modem control
/// lines set.
pub open spec fn serial_setup() -> Seq<PortWrite> {
    seq![
        PortWrite { port: 0x3f9, value: 0x00 },
        PortWrite { port: 0x3fb, value: 0x80 },
        PortWrite { port: 0x3f8, value: 0x03 },
        PortWrite { port: 0x3f9, value: 0x00 },
        PortWrite { port: 0x3fb, value: 0x03 },
        PortWrite { port: 0x3fa, value: 0xC7 },
        PortWrite { port: 0x3fc, value: 0x0B },
        PortWrite { port: 0x3fc, value: 0x1E },
        PortWrite { port: 0x3f8, value: 0xAE },
    ]
}

/// The port writes that set the serial line up, in order; see
/// [`serial_setup`].
pub fn setup_writes() -> (r: Vec<PortWrite>)
    ensures
        r@ == serial_setup(),
{
    let mut writes: Vec<PortWrite> = Vec::new();
    writes.push(PortWrite { port: PORT + 1, value: 0x00 });
    writes.push(PortWrite { port: PORT + 3, value: 0x80 });
    writes.push(PortWrite { port: PORT, value: 0x03 });
    writes.push(PortWrite { port: PORT + 1, value: 0x00 });
    writes.push(PortWrite { port: PORT + 3, value: 0x03 });
    writes.push(PortWrite { port: PORT + 2, value: 0xC7 });
    writes.push(PortWrite { port: PORT + 4, value: 0x0B });
    writes.push(PortWrite { port: PORT + 4, value: 0x1E });
    writes.push(PortWrite { port: PORT, value: 0xAE });
    assert(writes@ =~= serial_setup());
    writes
}

/// What puts the serial line in normal operation.
pub fn normal_mode_write() -> (r: PortWrite)
    ensures
        r == (PortWrite { port: 0x3fc, value: 0x0F }),
{
    PortWrite { port: PORT + 4, value: 0x0F }
}

/// How setting up the serial line went.
#[derive(Clone, Copy, Debug, PartialEq, Eq, Structural)]
pub enum SerialState {
    /// The line works.
    Ready,
    /// There is no serial line.
    Absent,
    /// The line is there and faulty.
    Poisoned,
}

/// What to make of setting up the serial line, where the scratch register
/// read `probe` and the test byte came back as `echo`: without the probe
/// byte there is no line, and without the test byte the line is faulty.
pub fn init_serial(probe: u8, echo: u8) -> (r: SerialState)
    ensures
        r == if probe != 0x42 {
            SerialState::Absent
        } else if echo != 0xAE {
            SerialState::Poisoned
        } else {
            SerialState::Ready
        },
{
    if probe != 0x42 {
        // serial port does not exist
        return SerialState::Absent;
    }
    // Check if serial is faulty

    if echo != 0xAE {
        return SerialState::Poisoned;
    }
    SerialState::Ready
}

impl SerialState {
    /// The code that setting up reports: 0 where the line works, else 1.
    pub fn code(self) -> (r: u8)
        ensures
            r == if self == SerialState::Ready {
                0u8
            } else {
                1u8
            },
    {
        match self {
            SerialState::Ready => 0,
            _ => 1,
        }
    }
}

/// The port that is read to see whether a byte can be sent: the line
/// status port, masked with the bit that says so.
pub fn transmit_status_port() -> (r: u16)
    ensures
        r == 0x20,
{
    assert((0x3fdu16 & 0x20) == 0x20) by (bit_vector);
    (PORT + 5) & 0x20
}

/// Whether sending has to wait, going by what the transmit status port
/// reads.
pub fn is_transmit_empty(status: u8) -> (r: bool)
    ensures
        r == (status == 0),
{
    status == 0
}

/// The bytes that go out for the byte `character`: a line feed is sent
/// after a carriage return, and any other byte as it is.
pub fn write_serial(character: u8) -> (r: Vec<u8>)
    ensures
        r@ == if character == 0x0A {
            seq![0x0Du8, 0x0A]
        } else {
            seq![character]
        },
{
    let mut out: Vec<u8> = Vec::new();
    if character == 0x0A {
        out.push(0x0D);
    }
    out.push(character);
    assert(out@ =~= if character == 0x0A {
        seq![0x0Du8, 0x0A]
    } else {
        seq![character]
    });
    out
}

/// Whether receiving has to wait, going by what the line status register
/// reads: it has to wait while bit 0 is clear.
pub fn serial_recieved(line_status: u8) -> (r: bool)
    ensures
        r == (line_status & 0x01 == 0),
{
    (line_status & 0x01) == 0
}

/// The port that a received byte is read from.
pub fn read_serial() -> (r: u16)
    ensures
        r == PORT,
{
    PORT
}

} // verus!
