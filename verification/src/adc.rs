//! 12-bit A/D converter: single polled conversions.
use crate::mmio::shadow::{Shadow, Access, spec_read, spec_store};
use crate::mmio::{read16, write16};
use vstd::prelude::*;

verus! {

/// ADC peripheral base.
pub const ADC_BASE: usize = 0xE800_5800;
/// First channel result register; channel `n` is at `+ 2 * n`.
pub const ADDR0: usize = 0xE800_5800;
/// A/D control / status register.
pub const ADCSR: usize = 0xE800_5860;
/// ADCSR: start a single conversion.
pub const ADCSR_ADST: u16 = 0x2000;
/// ADCSR: conversion complete.
pub const ADCSR_ADF: u16 = 0x8000;
/// ADCSR: clock / conversion-time select.
pub const ADCSR_CKS: u16 = 0x00C0;
/// Channel-select field.
pub const CH_MASK: u16 = 0x7;

/// The ADCSR value that starts a conversion on `channel`.
pub open spec fn spec_start_value(channel: u8) -> u16 {
    ADCSR_ADST | ADCSR_CKS | (channel as u16 & CH_MASK)
}

/// Start a single conversion on `channel` (0–7; higher bits are masked off).
/// Writing ADCSR also clears a previous completion flag.
pub fn start(s: &mut Shadow, channel: u8)
    ensures
        final(s).mem() == spec_store(old(s).mem(), ADCSR, spec_start_value(channel) as u32, 2),
        final(s).trace() == old(s).trace().push(
            Access { write: true, width: 2, addr: ADCSR, val: spec_start_value(channel) as u32 },
        ),
{
    write16(s, ADCSR, ADCSR_ADST | ADCSR_CKS | (channel as u16 & CH_MASK));
}

/// The result of the conversion on `channel` once ADCSR reports completion,
/// else `None`. The flag is left set.
pub fn read(s: &mut Shadow, channel: u8) -> (r: Option<u16>)
    requires
        channel < 8,
    ensures
        ({
            let csr = spec_read(old(s).mem(), ADCSR, 2);
            let addr = (ADDR0 + channel * 2) as usize;
            &&& final(s).mem() == old(s).mem()
            &&& if csr & (ADCSR_ADF as u32) == 0 {
                &&& r is None
                &&& final(s).trace() == old(s).trace().push(
                    Access { write: false, width: 2, addr: ADCSR, val: csr },
                )
            } else {
                let v = spec_read(old(s).mem(), addr, 2);
                &&& r == Some(v as u16)
                &&& final(s).trace() == old(s).trace().push(
                    Access { write: false, width: 2, addr: ADCSR, val: csr },
                ).push(Access { write: false, width: 2, addr, val: v })
            }
        }),
{
    let csr = read16(s, ADCSR);
    if csr & ADCSR_ADF == 0 {
        assert((csr as u32) & (ADCSR_ADF as u32) == 0) by (bit_vector)
            requires
                csr & ADCSR_ADF == 0,
        ;
        return None;
    }
    assert((csr as u32) & (ADCSR_ADF as u32) != 0) by (bit_vector)
        requires
            csr & ADCSR_ADF != 0,
    ;
    Some(read16(s, ADDR0 + (channel as usize) * 2))
}

} // verus!
