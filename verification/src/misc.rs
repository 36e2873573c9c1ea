//! Legacy chipset set-up: masking the 8259 interrupt controllers and
//! disabling the A20 mask through the system control port.

use vstd::prelude::*;

verus! {

/// I/O port of the master 8259 interrupt mask register.
pub const PIC_MASTER_MASK_PORT: u16 = 0x21;

/// I/O port of the slave 8259 interrupt mask register.
pub const PIC_SLAVE_MASK_PORT: u16 = 0xA1;

/// System control port A, whose bit 1 is the fast-A20 gate.
pub const SYSTEM_CONTROL_PORT_A: u16 = 0x92;

/// An 8-bit write to an I/O port.
#[derive(Clone, Copy, Debug, PartialEq, Eq)]
pub struct PortWrite {
    pub port: u16,
    pub value: u8,
}

/// The port writes that mask every line of both 8259 controllers, in the
/// order in which they are issued.
pub open spec fn pic_mask_writes() -> Seq<PortWrite> {
    seq![
        PortWrite { port: PIC_MASTER_MASK_PORT, value: 0xff },
        PortWrite { port: PIC_SLAVE_MASK_PORT, value: 0xff },
    ]
}

/// Clears the 8259 interrupts: returns the writes that mask all lines,
/// master first.
pub fn clear_8259_interupt() -> (writes: Vec<PortWrite>)
    ensures
        writes@ == pic_mask_writes(),
        writes@.len() == 2,
        writes@[0] == (PortWrite { port: 0x21, value: 0xff }),
        writes@[1] == (PortWrite { port: 0xA1, value: 0xff }),
{
    let mut writes: Vec<PortWrite> = Vec::new();
    writes.push(PortWrite { port: PIC_MASTER_MASK_PORT, value: 0xff });
    writes.push(PortWrite { port: PIC_SLAVE_MASK_PORT, value: 0xff });
    writes
}

/// Disables the A20 mask: given the byte read from system control port A,
/// returns the write that sets its fast-A20 bit and keeps every other bit.
pub fn disable_a20_mask(current: u8) -> (write: PortWrite)
    ensures
        write.port == SYSTEM_CONTROL_PORT_A,
        write.port == 0x92,
        write.value == current | 0b10u8,
        write.value & 0b10u8 == 0b10u8,
        write.value & !0b10u8 == current & !0b10u8,
{
    let value: u8 = current | 0b10u8;
    assert(value & 0b10u8 == 0b10u8) by (bit_vector)
        requires value == current | 0b10u8;
    assert(value & !0b10u8 == current & !0b10u8) by (bit_vector)
        requires value == current | 0b10u8;
    PortWrite { port: SYSTEM_CONTROL_PORT_A, value }
}

} // verus!
