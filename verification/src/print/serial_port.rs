//! Serial port, for sending only.
//!
//! The port's registers are I/O ports, which the caller reads and writes.
//! Decided here: which bytes go out for a string, to which port, and when
//! the transmitter may be written.

use vstd::prelude::*;
use vstd::string::StringSliceAdditionalSpecFns;

verus! {

/// Distance of the line status register from the port's base.
pub const LINE_STATUS_OFFSET: u16 = 5;

/// Bit of the line status that tells an empty transmitter.
pub const TRANSMITTER_EMPTY: u8 = 0x40;

/// How often the line status is read before a byte is sent regardless.
pub const SEND_POLL_LIMIT: u32 = 0xFF;

/// The byte that ends a line.
pub const LINE_FEED: u8 = 0x0a;

/// The byte that is sent before every line feed.
pub const CARRIAGE_RETURN: u8 = 0x0d;

/// One write of a byte to an I/O port.
#[derive(Clone, Copy, Debug, PartialEq, Eq, Structural)]
pub struct PortWrite {
    pub port: u16,
    pub value: u8,
}

/// A serial port by the base of its I/O ports. Base zero stands for no
/// port: nothing is sent.
#[derive(Clone, Copy, Debug, PartialEq, Eq, Structural)]
pub struct SerialPortManager {
    pub port: u16,
}

/// The bytes that go out for `bytes`: the same, with a carriage return
/// before every line feed.
pub open spec fn with_carriage_returns(bytes: Seq<u8>) -> Seq<u8>
    decreases bytes.len(),
{
    if bytes.len() == 0 {
        Seq::empty()
    } else if bytes.last() == LINE_FEED {
        with_carriage_returns(bytes.drop_last()).push(CARRIAGE_RETURN).push(LINE_FEED)
    } else {
        with_carriage_returns(bytes.drop_last()).push(bytes.last())
    }
}

/// The line status `status` shows an empty transmitter.
pub open spec fn transmitter_empty(status: u8) -> bool {
    (status / TRANSMITTER_EMPTY) % 2 == 1
}

impl SerialPortManager {
    pub fn new(io_port: u16) -> (serial: Self)
        ensures
            serial.port == io_port,
    {
        Self { port: io_port }
    }

    /// The I/O port of the line status register.
    pub fn status_port(&self) -> (port: u16)
        ensures
            port == (self.port + LINE_STATUS_OFFSET) % 0x1_0000,
    {
        self.port.wrapping_add(LINE_STATUS_OFFSET)
    }

    /// Whether the line status `status` shows that the transmitter has sent
    /// what it was given.
    pub fn is_completed_transmitter(status: u8) -> (r: bool)
        ensures
            r == transmitter_empty(status),
    {
        (status / TRANSMITTER_EMPTY) % 2 == 1
    }

    /// Whether the next byte may be written: the line status `status`, just
    /// read, shows an empty transmitter, or it was the last of
    /// [`SEND_POLL_LIMIT`] reads; `polls` counts the reads before it.
    pub fn may_send(status: u8, polls: u32) -> (r: bool)
        ensures
            r == (transmitter_empty(status) || polls + 1 >= SEND_POLL_LIMIT),
    {
        Self::is_completed_transmitter(status) || polls >= SEND_POLL_LIMIT - 1
    }

    /// The write that sends `data`, or `None` without a port.
    pub fn send(&self, data: u8) -> (r: Option<PortWrite>)
        ensures
            r == (if self.port == 0 {
                None
            } else {
                Some(PortWrite { port: self.port, value: data })
            }),
    {
        if self.port == 0 {
            None
        } else {
            Some(PortWrite { port: self.port, value: data })
        }
    }

    /// The bytes to send for `s`, in order: those of `s`, with a carriage
    /// return before every line feed. Without a port nothing is sent.
    pub fn send_str(&self, s: &str) -> (out: Vec<u8>)
        ensures
            out@ == (if self.port == 0 {
                Seq::<u8>::empty()
            } else {
                with_carriage_returns(s.spec_bytes())
            }),
    {
        let mut out: Vec<u8> = Vec::new();
        if self.port == 0 {
            return out;
        }
        let bytes = s.as_bytes();
        let mut i: usize = 0;
        while i < bytes.len()
            invariant
                i <= bytes@.len(),
                bytes@ == s.spec_bytes(),
                out@ == with_carriage_returns(bytes@.subrange(0, i as int)),
            decreases bytes@.len() - i,
        {
            let c: u8 = bytes[i];
            assert(bytes@.subrange(0, i + 1).drop_last() == bytes@.subrange(0, i as int));
            if c == LINE_FEED {
                out.push(CARRIAGE_RETURN);
            }
            out.push(c);
            i += 1;
        }
        assert(bytes@.subrange(0, i as int) == bytes@);
        out
    }
}

/// Sending adds one byte for every line feed and leaves every other byte
/// as it is: the output is never shorter than the input and at most twice
/// as long.
pub proof fn lemma_carriage_returns_length(bytes: Seq<u8>)
    ensures
        bytes.len() <= with_carriage_returns(bytes).len() <= 2 * bytes.len(),
    decreases bytes.len(),
{
    if bytes.len() > 0 {
        lemma_carriage_returns_length(bytes.drop_last());
    }
}

} // verus!
