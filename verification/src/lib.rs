//! A verified board-support library for the Synthstrom Deluge (Renesas
//! RZ/A1L): the peripheral register sequences (DMAC, SCUX audio path,
//! SPI flash controller, ADC, USB clock gates) over a logged register model,
//! the PIC32 co-processor protocol, the USB mass-storage transport's
//! decisions, the second-stage bootloader's ELF / UF2 / flash-slot logic, the
//! MMU and cache maintenance plans, and the firmware applications' arithmetic.
use vstd::prelude::*;

pub mod bytes;
pub mod pic;
pub mod elf;
pub mod bot;
pub mod uf2;
pub mod memmap;
pub mod mmio;
pub mod dmac;
pub mod scux;
pub mod spibsc;
pub mod encoder;
pub mod adc;
pub mod usb;
pub mod msc;
pub mod pads;
pub mod oled;
pub mod flashboot;
pub mod firmware;
pub mod flasher;
pub mod audio_stream;
pub mod loader;
