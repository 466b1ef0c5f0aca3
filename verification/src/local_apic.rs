//! Local APIC: the identifier of the running core and the encoding of
//! interprocessor interrupts.
//!
//! The registers are memory mapped. Reading and writing them is the caller's
//! part; this module decodes what was read and encodes what is to be
//! written, in the order in which it has to be written.

use vstd::prelude::*;

verus! {

/// Address of the register that holds the running core's APIC id.
pub const APIC_ID_REGISTER: usize = 0xfee0_0020;

/// Address of the low half of the interrupt command register. Writing it
/// sends the interrupt.
pub const ICR_LOW_REGISTER: usize = 0xfee0_0300;

/// Address of the high half of the interrupt command register.
pub const ICR_HIGH_REGISTER: usize = 0xfee0_0310;

/// Delivery mode of an INIT interrupt.
pub const DELIVERY_MODE_INIT: u8 = 0b101;

/// Delivery mode of a startup interrupt.
pub const DELIVERY_MODE_STARTUP: u8 = 0b110;

/// One write to a memory-mapped register.
#[derive(Clone, Copy, Debug, PartialEq, Eq, Structural)]
pub struct RegisterWrite {
    pub address: usize,
    pub value: u32,
}

/// The image of the 64-bit interrupt command register, in halves.
#[derive(Clone, Copy, Debug, PartialEq, Eq, Structural)]
pub struct InterruptCommand {
    pub high: u32,
    pub low: u32,
}

/// The low half of the command register for the given fields: the vector
/// in bits 0 to 7, the delivery mode from bit 8, the level at bit 14 and
/// the trigger mode at bit 15.
pub open spec fn icr_low(delivery_mode: u8, trigger_mode: u8, level: u8, vector: u8) -> u32 {
    ((trigger_mode as u32) << 15) | ((level as u32) << 14) | ((delivery_mode as u32) << 8) | (
    vector as u32)
}

/// The high half of the command register: the destination in bits 24 to 31,
/// which are bits 56 to 63 of the whole register.
pub open spec fn icr_high(destination: u32) -> u32 {
    (destination * 0x100_0000) as u32
}

/// The APIC id in the value read from [`APIC_ID_REGISTER`]: its top byte.
pub fn get_apic_id(register: u32) -> (id: u8)
    ensures
        id == register / 0x100_0000,
{
    (register / 0x100_0000) as u8
}

/// Encodes an interprocessor interrupt.
pub fn send_interrupt_command(
    destination: u32,
    delivery_mode: u8,
    trigger_mode: u8,
    level: u8,
    vector: u8,
) -> (command: InterruptCommand)
    requires
        delivery_mode < 8,
        destination <= 0xff,
    ensures
        command.high == icr_high(destination),
        command.low == icr_low(delivery_mode, trigger_mode, level, vector),
{
    let low: u32 = ((trigger_mode as u32) << 15) | ((level as u32) << 14) | ((delivery_mode as u32)
        << 8) | (vector as u32);
    InterruptCommand { high: destination * 0x100_0000, low }
}

impl InterruptCommand {
    /// The register writes that send the command, in order: the high half
    /// first, then the low half, whose write triggers the interrupt.
    pub fn writes(&self) -> (order: (RegisterWrite, RegisterWrite))
        ensures
            order.0 == (RegisterWrite { address: ICR_HIGH_REGISTER, value: self.high }),
            order.1 == (RegisterWrite { address: ICR_LOW_REGISTER, value: self.low }),
    {
        (
            RegisterWrite { address: ICR_HIGH_REGISTER, value: self.high },
            RegisterWrite { address: ICR_LOW_REGISTER, value: self.low },
        )
    }

    /// The APIC id the command is addressed to.
    pub fn destination(&self) -> (id: u32)
        ensures
            id == self.high / 0x100_0000,
    {
        self.high / 0x100_0000
    }

    /// The delivery mode the command carries.
    pub fn delivery_mode(&self) -> (mode: u8)
        ensures
            mode == (self.low / 0x100) % 8,
    {
        ((self.low / 0x100) % 8) as u8
    }

    /// The vector the command carries.
    pub fn vector(&self) -> (vector: u8)
        ensures
            vector == self.low % 0x100,
    {
        (self.low % 0x100) as u8
    }
}

/// The fields of a command can be read back from its image: the halves lay
/// them out side by side, where trigger mode and level are single bits.
pub proof fn lemma_command_layout(
    destination: u32,
    delivery_mode: u8,
    trigger_mode: u8,
    level: u8,
    vector: u8,
)
    requires
        destination <= 0xff,
        delivery_mode < 8,
        trigger_mode <= 1,
        level <= 1,
    ensures
        icr_low(delivery_mode, trigger_mode, level, vector) == trigger_mode * 0x8000 + level
            * 0x4000 + delivery_mode * 0x100 + vector,
        icr_low(delivery_mode, trigger_mode, level, vector) % 0x100 == vector,
        (icr_low(delivery_mode, trigger_mode, level, vector) / 0x100) % 8 == delivery_mode,
        icr_high(destination) / 0x100_0000 == destination,
{
    let low = icr_low(delivery_mode, trigger_mode, level, vector);
    assert(low == trigger_mode * 0x8000 + level * 0x4000 + delivery_mode * 0x100 + vector)
        by (bit_vector)
        requires
            delivery_mode < 8,
            trigger_mode <= 1,
            level <= 1,
            low == ((trigger_mode as u32) << 15) | ((level as u32) << 14) | ((delivery_mode as u32)
                << 8) | (vector as u32),
    ;
}

} // verus!
