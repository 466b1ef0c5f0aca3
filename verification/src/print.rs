//! Text output of the kernel: every string goes out through the serial
//! port and onto the frame buffer.

use crate::phys_memory::PhysMemory;
use crate::print::graphic::{DrawCommand, GraphicManager};
use crate::print::serial_port::{with_carriage_returns, PortWrite, SerialPortManager};
use vstd::prelude::*;
use vstd::string::StringSliceAdditionalSpecFns;

pub mod graphic;
pub mod serial_port;

verus! {

/// Base of the I/O ports of the first serial port.
pub const COM1: u16 = 0x3F8;

/// Where the kernel's text goes.
pub struct PrintManager {
    pub serial_port_manager: SerialPortManager,
    pub graphic_manager: GraphicManager,
}

/// The port writes that put `bytes` out through the serial port at `port`.
pub open spec fn serial_writes(port: u16, bytes: Seq<u8>) -> Seq<PortWrite> {
    if port == 0 {
        Seq::empty()
    } else {
        with_carriage_returns(bytes).map_values(|value: u8| PortWrite { port, value })
    }
}

impl PrintManager {
    /// Output through the first serial port, and not yet on the screen.
    pub fn new() -> (manager: Self)
        ensures
            manager.serial_port_manager.port == COM1,
            manager.graphic_manager.is_fresh(),
    {
        Self {
            serial_port_manager: SerialPortManager::new(COM1),
            graphic_manager: GraphicManager::new(),
        }
    }

    /// Sets up the output on the screen: reads the font file at
    /// `font_address` and takes over the frame buffer. Where the font
    /// cannot be read, the screen stays unused.
    pub fn init(
        &mut self,
        mem: &PhysMemory,
        frame_buffer_address: usize,
        frame_buffer_width: usize,
        frame_buffer_height: usize,
        frame_buffer_depth: u8,
        font_address: usize,
        font_size: usize,
    )
        ensures
            final(self).serial_port_manager == old(self).serial_port_manager,
            GraphicManager::init_result(
                old(self).graphic_manager,
                final(self).graphic_manager,
                mem,
                frame_buffer_address,
                frame_buffer_width,
                frame_buffer_height,
                frame_buffer_depth,
                font_address,
                font_size,
            ),
    {
        self.graphic_manager.init(
            mem,
            frame_buffer_address,
            frame_buffer_width,
            frame_buffer_height,
            frame_buffer_depth,
            font_address,
            font_size,
        );
    }

    /// What putting `string` out takes: the port writes, in order, and
    /// what is to be drawn on the screen, where there is one. The cursor
    /// on the screen moves behind the text.
    pub fn write_str(&mut self, string: &str) -> (r: (Vec<PortWrite>, Option<Vec<DrawCommand>>))
        ensures
            final(self).serial_port_manager == old(self).serial_port_manager,
            r.0@ == serial_writes(old(self).serial_port_manager.port, string.spec_bytes()),
            GraphicManager::draw_result(
                old(self).graphic_manager,
                final(self).graphic_manager,
                string.spec_bytes(),
                r.1,
            ),
    {
        let bytes = self.serial_port_manager.send_str(string);
        let mut writes: Vec<PortWrite> = Vec::new();
        let mut i: usize = 0;
        while i < bytes.len()
            invariant
                i <= bytes@.len(),
                *self == *old(self),
                self.serial_port_manager.port == 0 ==> bytes@.len() == 0,
                writes@ == bytes@.subrange(0, i as int).map_values(
                    |value: u8| PortWrite { port: self.serial_port_manager.port, value },
                ),
            decreases bytes@.len() - i,
        {
            match self.serial_port_manager.send(bytes[i]) {
                Some(write) => {
                    writes.push(write);
                },
                None => {},
            }
            i += 1;
        }
        assert(bytes@.subrange(0, i as int) == bytes@);
        let drawn = self.graphic_manager.draw_string(string);
        (writes, drawn)
    }
}

} // verus!
