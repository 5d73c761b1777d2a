//! RUSB1 USB modules: base addresses, interrupt IDs, the module clock gates
//! in STBCR7, and the port handle with its mode marker.
use crate::mmio::shadow::{Shadow, Access, spec_read, spec_store};
use crate::mmio::{read8, write8};
use vstd::prelude::*;

verus! {

/// USB channel 0 register base.
pub const USB0_BASE: usize = 0xE801_0000;
/// USB channel 1 register base.
pub const USB1_BASE: usize = 0xE820_7000;
/// GIC interrupt ID of USB0.
pub const USB0_IRQ: u16 = 73;
/// GIC interrupt ID of USB1.
pub const USB1_IRQ: u16 = 74;
/// CPG standby control register 7: bit 1 stops USB0's clock, bit 0 USB1's.
pub const STBCR7: usize = 0xFCFE_0430;
/// GIC priority of the USB interrupts (below the CPU interface's threshold).
pub const USB_IRQ_PRIORITY: u8 = 10;

/// The register base of `port` (0, otherwise channel 1).
pub fn base(port: u8) -> (a: usize)
    ensures
        a == if port == 0 { USB0_BASE } else { USB1_BASE },
{
    if port == 0 { USB0_BASE } else { USB1_BASE }
}

/// The GIC interrupt ID of `port`.
pub fn irq(port: u8) -> (id: u16)
    ensures
        id == USB0_IRQ + port,
{
    USB0_IRQ + port as u16
}

/// The STBCR7 bit that stops `port`'s clock.
pub open spec fn spec_clock_bit(port: u8) -> u8 {
    if port == 0 { 2 } else { 1 }
}

/// The STBCR7 bit that stops `port`'s clock.
pub fn clock_bit(port: u8) -> (b: u8)
    ensures
        b == spec_clock_bit(port),
{
    if port == 0 { 2 } else { 1 }
}

/// The accesses of switching `port`'s clock: read STBCR7 (`cur`), write it
/// back with the bit cleared (`on`) or set, then the dummy read that flushes
/// the write buffer.
pub open spec fn spec_clock_ops(port: u8, on: bool, cur: u8) -> Seq<Access> {
    let v = if on { cur & !spec_clock_bit(port) } else { cur | spec_clock_bit(port) };
    seq![
        Access { write: false, width: 1, addr: STBCR7, val: cur as u32 },
        Access { write: true, width: 1, addr: STBCR7, val: v as u32 },
        Access { write: false, width: 1, addr: STBCR7, val: v as u32 },
    ]
}

fn switch_clock(s: &mut Shadow, port: u8, on: bool)
    ensures
        ({
            let cur = spec_read(old(s).mem(), STBCR7, 1) as u8;
            let v = if on { cur & !spec_clock_bit(port) } else { cur | spec_clock_bit(port) };
            &&& final(s).trace() == old(s).trace() + spec_clock_ops(port, on, cur)
            &&& final(s).mem() == spec_store(old(s).mem(), STBCR7, v as u32, 1)
        }),
{
    let bit = clock_bit(port);
    let cur = read8(s, STBCR7);
    let v = if on { cur & !bit } else { cur | bit };
    write8(s, STBCR7, v);
    let back = read8(s, STBCR7);
    proof {
        crate::mmio::shadow::lemma_read_after_store(old(s).mem(), STBCR7, v as u32, 1);
        assert((v as u32) & 0xff == v as u32) by (bit_vector);
    }
    assert(s.trace() =~= old(s).trace() + spec_clock_ops(port, on, cur));
}

/// Switching one port's clock gate sets or clears that port's bit alone:
/// the other port's clock and the register's other bits are left as they
/// were.
pub proof fn lemma_clock_switch_keeps_other_bits(cur: u8, port: u8, on: bool)
    ensures
        ({
            let b = spec_clock_bit(port);
            let v = if on { cur & !b } else { cur | b };
            &&& v & b == (if on { 0u8 } else { b })
            &&& v & !b == cur & !b
        }),
{
    let b = spec_clock_bit(port);
    assert((cur & !b) & b == 0 && (cur | b) & b == b && (cur & !b) & !b == cur & !b && (cur | b)
        & !b == cur & !b) by (bit_vector);
}

/// Start the clock of USB module `port` (clear its STBCR7 bit).
pub fn module_clock_enable(s: &mut Shadow, port: u8)
    ensures
        ({
            let cur = spec_read(old(s).mem(), STBCR7, 1) as u8;
            &&& final(s).trace() == old(s).trace() + spec_clock_ops(port, true, cur)
            &&& final(s).mem() == spec_store(
                old(s).mem(),
                STBCR7,
                (cur & !spec_clock_bit(port)) as u32,
                1,
            )
        }),
{
    switch_clock(s, port, true);
}

/// Stop the clock of USB module `port` (set its STBCR7 bit).
pub fn module_clock_disable(s: &mut Shadow, port: u8)
    ensures
        ({
            let cur = spec_read(old(s).mem(), STBCR7, 1) as u8;
            &&& final(s).trace() == old(s).trace() + spec_clock_ops(port, false, cur)
            &&& final(s).mem() == spec_store(
                old(s).mem(),
                STBCR7,
                (cur | spec_clock_bit(port)) as u32,
                1,
            )
        }),
{
    switch_clock(s, port, false);
}

/// Mode marker: device (peripheral) operation.
pub struct Device;

/// Mode marker: host operation.
pub struct Host;

/// Ownership of one RUSB1 port in mode `M`.
pub struct UsbPort<M> {
    port: u8,
    mode: M,
}

impl<M> UsbPort<M> {
    /// The port this handle owns.
    pub closed spec fn spec_port(&self) -> u8 {
        self.port
    }

    /// The hardware port index (0 or 1).
    pub fn port_index(&self) -> (p: u8)
        ensures
            p == self.spec_port(),
    {
        self.port
    }
}

/// Start `port`'s clock and take the port in device mode.
pub fn init_device_mode(s: &mut Shadow, port: u8) -> (h: UsbPort<Device>)
    ensures
        h.spec_port() == port,
        ({
            let cur = spec_read(old(s).mem(), STBCR7, 1) as u8;
            final(s).trace() == old(s).trace() + spec_clock_ops(port, true, cur)
        }),
{
    module_clock_enable(s, port);
    UsbPort { port, mode: Device }
}

/// Start `port`'s clock and take the port in host mode.
pub fn init_host_mode(s: &mut Shadow, port: u8) -> (h: UsbPort<Host>)
    ensures
        h.spec_port() == port,
        ({
            let cur = spec_read(old(s).mem(), STBCR7, 1) as u8;
            final(s).trace() == old(s).trace() + spec_clock_ops(port, true, cur)
        }),
{
    module_clock_enable(s, port);
    UsbPort { port, mode: Host }
}

} // verus!
