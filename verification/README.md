# deluge

A verified board-support library for the Synthstrom Deluge (Renesas RZ/A1L),
written in Verus.

* `src/` — the library. Every public function carries a `requires` /
  `ensures` contract that Verus proves; the proof functions named `lemma_*`
  state the library's laws (read-after-write of the register model, the
  SPI-flash write guard, completeness of mass-storage transfers, the MMU
  address map, the UF2 round trip, ...).
  * `mmio` — the register model: a byte store plus an ordered access log;
    peripheral drivers (`dmac`, `scux`, `spibsc::bus`, `adc`, `usb`) state
    the exact access sequence each call performs.
  * `pic`, `encoder`, `pads`, `oled` — front-panel protocol and buffers.
  * `bot`, `msc` — USB Bulk-Only Transport / SCSI decisions and the class
    requests.
  * `elf`, `loader`, `uf2`, `flashboot`, `flasher` — boot loading and
    flash update; `loader::LoadSession` and `flasher::FlashSession` are the
    ELF load and the boot-flasher run as state machines that ask the caller
    for one read, seek, write or report at a time.
  * `memmap` — cache-line walks, DMA invalidate plans, the MMU section map.
  * `firmware`, `audio_stream` — application arithmetic and the USB audio
    ring handling.
* `tests/` — executable tests of the library.
* `app/` — the asynchronous glue: the mass-storage command loop over
  `embassy-usb` endpoints, the MSC class handler, interrupt-to-task signals,
  an `embedded-graphics` target for the OLED, the drivers of the ELF load
  and of the boot-flasher run, and the floating-point star field.
