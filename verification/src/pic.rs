//! Deluge PIC32 co-processor protocol: the PIC → CPU event stream parser, the
//! pad-id → grid-coordinate mapping, and the byte layout of the CPU → PIC
//! commands.
//!
//! The link is a flat byte stream with no framing.  Event bytes (PIC → CPU):
//!
//! | Range   | Meaning                                                  |
//! |---------|----------------------------------------------------------|
//! | 0–143   | Pad event (press if normal, release if preceded by 252)  |
//! | 144–179 | Button event (same logic)                                |
//! | 180–244 | Undefined / ignored                                      |
//! | 245     | FIRMWARE_VERSION_NEXT (followed by version byte)         |
//! | 248–249 | OLED chip-select handshake (SELECT / DESELECT)           |
//! | 252     | NEXT_PAD_OFF prefix                                      |
//! | 254     | NO_PRESSES_HAPPENING                                     |
//!
//! Everything else is ignored.  Sending the command bytes over the UART is the
//! caller's job; this module only decides what the bytes are.
use vstd::prelude::*;

verus! {

/// SCIF channel wired to the PIC32.
pub const UART_CH: usize = 1;

/// Initial baud rate — the PIC uses 31 250 at power-on.
pub const BAUD_INIT: u32 = 31_250;

/// High-speed baud rate after the handshake.
pub const BAUD_FAST: u32 = 200_000;

/// The PIC's internal oscillator, used by the UART speed divider formula
/// `baud = PIC_CLK / (divider + 1)`.
pub const PIC_CLK_HZ: u32 = 4_000_000;

pub const CMD_SET_DEBOUNCE_TIME: u8 = 18;
pub const CMD_SET_REFRESH_TIME: u8 = 19;
pub const CMD_SET_GOLD_KNOB_0_INDICATORS: u8 = 20;
pub const CMD_SET_GOLD_KNOB_1_INDICATORS: u8 = 21;
pub const CMD_RESEND_BUTTON_STATES: u8 = 22;
pub const CMD_SET_FLASH_LENGTH: u8 = 23;
pub const CMD_SET_UART_SPEED: u8 = 225;
pub const CMD_SET_MIN_INTERRUPT_INTERVAL: u8 = 244;
pub const CMD_REQUEST_FIRMWARE_VERSION: u8 = 245;
pub const CMD_ENABLE_OLED: u8 = 247;
pub const CMD_SELECT_OLED: u8 = 248;
pub const CMD_DESELECT_OLED: u8 = 249;
pub const CMD_SET_DC_LOW: u8 = 250;
pub const CMD_SET_DC_HIGH: u8 = 251;

/// Base command byte for indicator LED off: `CMD_LED_OFF_BASE + id` (id 0–35).
pub const CMD_LED_OFF_BASE: u8 = 152;
/// Base command byte for indicator LED on: `CMD_LED_ON_BASE + id` (id 0–35).
pub const CMD_LED_ON_BASE: u8 = 188;
/// Base command byte for two-column RGB data: `CMD_SET_COLOUR_FOR_COLS_BASE + pair`.
pub const CMD_SET_COLOUR_FOR_COLS_BASE: u8 = 1;
/// Sent after all column-pair data to trigger the PIC display refresh.
pub const CMD_DONE_SENDING_ROWS: u8 = 240;

/// Event prefix: the next pad/button byte is a release.
pub const RESP_NEXT_PAD_OFF: u8 = 252;
/// Event: no pads are currently active.
pub const RESP_NO_PRESSES: u8 = 254;
/// Event prefix: the next byte is the PIC firmware version.
pub const RESP_FIRMWARE_VERSION: u8 = 245;

/// An event decoded from the PIC byte stream.
#[non_exhaustive]
#[derive(Debug, Clone, Copy, PartialEq, Eq, Structural)]
pub enum Event {
    /// A pad was pressed.  `id` is 0–143.
    PadPress { id: u8 },
    /// A pad was released.  `id` is 0–143.
    PadRelease { id: u8 },
    /// A button was pressed.  `id` is 0–35 (raw PIC value − 144).
    ButtonPress { id: u8 },
    /// A button was released.  `id` is 0–35.
    ButtonRelease { id: u8 },
    /// PIC firmware version byte.
    FirmwareVersion(u8),
    /// OLED chip-select asserted (PIC is ready for SPI data).
    OledSelected,
    /// OLED chip-select de-asserted.
    OledDeselected,
    /// PIC reports no pads are currently active.
    NoPresses,
}

/// Grid column of pad `id`: the PIC packs pads 9 to a row, two physical
/// columns apart, with the second half (rows 8–15) on the odd columns.
pub open spec fn spec_pad_x(id: int) -> int {
    (id % 9) * 2 + if id / 9 >= 8 { 1int } else { 0int }
}

/// Grid row of pad `id`.
pub open spec fn spec_pad_y(id: int) -> int {
    if id / 9 >= 8 { id / 9 - 8 } else { id / 9 }
}

/// Pad ID → (column, row) coordinate.
///
/// For a pad id (0–143) the result is `(x, y)` with `x` in 0..18 and `y` in
/// 0..8; larger ids follow the same formula.
pub fn pad_coords(id: u8) -> (r: (u8, u8))
    ensures
        r.0 as int == spec_pad_x(id as int),
        r.1 as int == spec_pad_y(id as int),
{
    let y_raw = id / 9;
    let mut x = (id - y_raw * 9) * 2;
    let mut y = y_raw;
    if y >= 8 {
        y -= 8;
        x += 1;
    }
    (x, y)
}

/// The pad id at grid position (`x`, `y`): the inverse of [`pad_coords`].
pub open spec fn spec_pad_id_at(x: int, y: int) -> int {
    (y + (x % 2) * 8) * 9 + x / 2
}

/// Every pad maps to a distinct cell of the 18 × 8 grid, and the cell
/// determines the pad back.
pub proof fn lemma_pad_coords_bijective(id: int)
    requires
        0 <= id < 144,
    ensures
        0 <= spec_pad_x(id) < 18,
        0 <= spec_pad_y(id) < 8,
        spec_pad_id_at(spec_pad_x(id), spec_pad_y(id)) == id,
{
}

/// One step of the PIC stream grammar: the state after `byte` and the event
/// it completes, if any.
pub open spec fn spec_push(next_is_off: bool, fw_next: bool, byte: u8) -> (bool, bool, Option<Event>) {
    if fw_next {
        (next_is_off, false, Some(Event::FirmwareVersion(byte)))
    } else if byte <= 143 {
        (false, false, Some(if next_is_off { Event::PadRelease { id: byte } } else { Event::PadPress { id: byte } }))
    } else if byte <= 179 {
        let id = (byte - 144) as u8;
        (false, false, Some(if next_is_off { Event::ButtonRelease { id } } else { Event::ButtonPress { id } }))
    } else if byte == RESP_FIRMWARE_VERSION {
        (next_is_off, true, None)
    } else if byte == CMD_SELECT_OLED {
        (next_is_off, false, Some(Event::OledSelected))
    } else if byte == CMD_DESELECT_OLED {
        (next_is_off, false, Some(Event::OledDeselected))
    } else if byte == RESP_NEXT_PAD_OFF {
        (true, false, None)
    } else if byte == RESP_NO_PRESSES {
        (false, false, Some(Event::NoPresses))
    } else {
        (next_is_off, false, None)
    }
}

/// Stateful parser for the PIC → CPU byte stream.
///
/// Feed bytes one at a time via [`Parser::push`]; it returns `Some(Event)` when
/// a complete event has been decoded and `None` when more bytes are needed.
pub struct Parser {
    next_is_off: bool,
    firmware_version_next: bool,
}

impl View for Parser {
    type V = (bool, bool);

    closed spec fn view(&self) -> (bool, bool) {
        (self.next_is_off, self.firmware_version_next)
    }
}

impl Parser {
    /// A parser expecting the first byte of an event.
    pub fn new() -> (p: Self)
        ensures
            p@ == (false, false),
    {
        Self { next_is_off: false, firmware_version_next: false }
    }

    /// Push one byte received from the PIC.  Returns a decoded event, if any.
    pub fn push(&mut self, byte: u8) -> (r: Option<Event>)
        ensures
            ({
                let s = spec_push(old(self)@.0, old(self)@.1, byte);
                final(self)@ == (s.0, s.1) && r == s.2
            }),
    {
        if self.firmware_version_next {
            self.firmware_version_next = false;
            return Some(Event::FirmwareVersion(byte));
        }
        if byte <= 143 {
            let off = self.next_is_off;
            self.next_is_off = false;
            if off {
                Some(Event::PadRelease { id: byte })
            } else {
                Some(Event::PadPress { id: byte })
            }
        } else if byte <= 179 {
            let off = self.next_is_off;
            self.next_is_off = false;
            let id = byte - 144;
            if off {
                Some(Event::ButtonRelease { id })
            } else {
                Some(Event::ButtonPress { id })
            }
        } else if byte <= 244 {
            // Undefined bytes in the PIC protocol are silently ignored.
            None
        } else if byte == RESP_FIRMWARE_VERSION {
            self.firmware_version_next = true;
            None
        } else if byte == CMD_SELECT_OLED {
            Some(Event::OledSelected)
        } else if byte == CMD_DESELECT_OLED {
            Some(Event::OledDeselected)
        } else if byte == RESP_NEXT_PAD_OFF {
            self.next_is_off = true;
            None
        } else if byte == RESP_NO_PRESSES {
            self.next_is_off = false;
            Some(Event::NoPresses)
        } else {
            None
        }
    }
}

/// A release prefix (252) affects exactly the next pad or button byte: that
/// byte decodes as a release, and a repeat of it afterwards decodes as a press.
pub proof fn lemma_release_prefix_applies_once(fw_next: bool, off: bool, b: u8)
    requires
        b <= 179,
    ensures
        ({
            let s1 = spec_push(off, false, RESP_NEXT_PAD_OFF);
            let s2 = spec_push(s1.0, s1.1, b);
            let s3 = spec_push(s2.0, s2.1, b);
            &&& s1.2 is None
            &&& s2.2 == Some(if b <= 143 { Event::PadRelease { id: b } } else { Event::ButtonRelease { id: (b - 144) as u8 } })
            &&& s3.2 == Some(if b <= 143 { Event::PadPress { id: b } } else { Event::ButtonPress { id: (b - 144) as u8 } })
        }),
{
}

/// After the firmware-version prefix (245) the next byte, whatever its value,
/// is the version, and the parser is back to reading events.
pub proof fn lemma_version_byte_taken_verbatim(off: bool, b: u8)
    ensures
        ({
            let s1 = spec_push(off, false, RESP_FIRMWARE_VERSION);
            let s2 = spec_push(s1.0, s1.1, b);
            &&& s1.2 is None
            &&& s2.2 == Some(Event::FirmwareVersion(b))
            &&& s2.0 == off
            &&& !s2.1
        }),
{
}

/// Undefined bytes (180–244) are dropped without disturbing the parser state,
/// so they never consume the following byte.
pub proof fn lemma_undefined_bytes_ignored(off: bool, b: u8)
    requires
        180 <= b <= 244,
    ensures
        spec_push(off, false, b) == (off, false, Option::<Event>::None),
{
}

/// The id carried by a pad event is a pad id and that of a button event is a
/// button id.
pub proof fn lemma_event_ids_in_range(off: bool, b: u8)
    ensures
        match spec_push(off, false, b).2 {
            Some(Event::PadPress { id }) => id < 144,
            Some(Event::PadRelease { id }) => id < 144,
            Some(Event::ButtonPress { id }) => id < 36,
            Some(Event::ButtonRelease { id }) => id < 36,
            _ => true,
        },
{
}

/// Speed-divider byte for the SET_UART_SPEED command:
/// `PIC_CLK / baud − 1`, saturating at 0.
pub fn uart_speed_divider(pic_clk_hz: u32, baud: u32) -> (d: u32)
    requires
        baud > 0,
    ensures
        d as int == if pic_clk_hz / baud >= 1 { pic_clk_hz / baud - 1 } else { 0 },
{
    let q = pic_clk_hz / baud;
    if q >= 1 {
        q - 1
    } else {
        0
    }
}

/// Command byte turning indicator LED `id` (0–35) on.
pub fn led_on_byte(id: u8) -> (b: u8)
    requires
        id < 36,
    ensures
        b == CMD_LED_ON_BASE + id,
{
    CMD_LED_ON_BASE + id
}

/// Command byte turning indicator LED `id` (0–35) off.
pub fn led_off_byte(id: u8) -> (b: u8)
    requires
        id < 36,
    ensures
        b == CMD_LED_OFF_BASE + id,
{
    CMD_LED_OFF_BASE + id
}

/// The 49-byte SET_COLOUR_FOR_COLS message for column pair `pair` (0–8):
/// the command byte, then the sixteen `[r, g, b]` entries in order
/// (rows 0–7 of the left column, then rows 0–7 of the right column).
pub fn column_pair_message(pair: u8, colours: &[[u8; 3]; 16]) -> (m: Vec<u8>)
    requires
        pair <= 8,
    ensures
        m@.len() == 49,
        m@[0] == CMD_SET_COLOUR_FOR_COLS_BASE + pair,
        forall|i: int, j: int| 0 <= i < 16 && 0 <= j < 3 ==> m@[1 + 3 * i + j] == colours@[i]@[j],
{
    let mut m: Vec<u8> = Vec::new();
    m.push(CMD_SET_COLOUR_FOR_COLS_BASE + pair);
    let mut i: usize = 0;
    while i < 16
        invariant
            0 <= i <= 16,
            m@.len() == 1 + 3 * i,
            m@[0] == CMD_SET_COLOUR_FOR_COLS_BASE + pair,
            forall|k: int, j: int| 0 <= k < i && 0 <= j < 3 ==> m@[1 + 3 * k + j] == colours@[k]@[j],
        decreases 16 - i,
    {
        let c = colours[i];
        m.push(c[0]);
        m.push(c[1]);
        m.push(c[2]);
        i += 1;
    }
    m
}

/// The gold-knob indicator message: the knob's command (knob 0, or knob 1 for
/// any other value) followed by the four brightnesses.
pub fn gold_knob_message(knob: u8, brightnesses: [u8; 4]) -> (m: [u8; 5])
    ensures
        m@[0] == if knob == 0 { CMD_SET_GOLD_KNOB_0_INDICATORS } else { CMD_SET_GOLD_KNOB_1_INDICATORS },
        forall|i: int| 0 <= i < 4 ==> m@[i + 1] == brightnesses@[i],
{
    let cmd = if knob == 0 {
        CMD_SET_GOLD_KNOB_0_INDICATORS
    } else {
        CMD_SET_GOLD_KNOB_1_INDICATORS
    };
    [cmd, brightnesses[0], brightnesses[1], brightnesses[2], brightnesses[3]]
}

/// The configuration commands sent at 31 250 bps during initialisation, in
/// order: enable OLED, debounce 5 (× 4 ms), refresh 23 ms, minimum interrupt
/// interval 8 ms, flash length 6 ms, and the switch to [`BAUD_FAST`].
pub fn init_sequence() -> (m: Vec<u8>)
    ensures
        m@ == seq![
            CMD_ENABLE_OLED,
            CMD_SET_DEBOUNCE_TIME, 5u8,
            CMD_SET_REFRESH_TIME, 23u8,
            CMD_SET_MIN_INTERRUPT_INTERVAL, 8u8,
            CMD_SET_FLASH_LENGTH, 6u8,
            CMD_SET_UART_SPEED, 19u8,
        ],
{
    let d = uart_speed_divider(PIC_CLK_HZ, BAUD_FAST);
    let mut m: Vec<u8> = Vec::new();
    m.push(CMD_ENABLE_OLED);
    m.push(CMD_SET_DEBOUNCE_TIME);
    m.push(5);
    m.push(CMD_SET_REFRESH_TIME);
    m.push(23);
    m.push(CMD_SET_MIN_INTERRUPT_INTERVAL);
    m.push(8);
    m.push(CMD_SET_FLASH_LENGTH);
    m.push(6);
    m.push(CMD_SET_UART_SPEED);
    m.push(d as u8);
    m
}

/// The OLED chip-select handshake: the PIC echoes SELECT (248) and
/// DESELECT (249) once it has asserted / released the OLED chip select; each
/// echo is held until the task waiting for it takes it.
pub struct OledHandshake {
    selected: bool,
    deselected: bool,
}

impl View for OledHandshake {
    /// (select echo pending, deselect echo pending)
    type V = (bool, bool);

    closed spec fn view(&self) -> (bool, bool) {
        (self.selected, self.deselected)
    }
}

impl OledHandshake {
    /// No echo pending.
    pub fn new() -> (h: Self)
        ensures
            h@ == (false, false),
    {
        OledHandshake { selected: false, deselected: false }
    }

    /// Take the select echo: `true` (and cleared) if one was pending; the
    /// waiter is ready exactly then.
    pub fn take_selected(&mut self) -> (r: bool)
        ensures
            r == old(self)@.0,
            final(self)@ == (false, old(self)@.1),
    {
        let r = self.selected;
        self.selected = false;
        r
    }

    /// Take the deselect echo: `true` (and cleared) if one was pending.
    pub fn take_deselected(&mut self) -> (r: bool)
        ensures
            r == old(self)@.1,
            final(self)@ == (old(self)@.0, false),
    {
        let r = self.deselected;
        self.deselected = false;
        r
    }
}

/// Record the PIC's select echo (event byte 248).
pub fn notify_selected(h: &mut OledHandshake)
    ensures
        final(h)@ == (true, old(h)@.1),
{
    h.selected = true;
}

/// Record the PIC's deselect echo (event byte 249).
pub fn notify_deselected(h: &mut OledHandshake)
    ensures
        final(h)@ == (old(h)@.0, true),
{
    h.deselected = true;
}

/// Called when [`Event::OledSelected`] is decoded.
pub fn notify_oled_selected(h: &mut OledHandshake)
    ensures
        final(h)@ == (true, old(h)@.1),
{
    notify_selected(h);
}

/// Called when [`Event::OledDeselected`] is decoded.
pub fn notify_oled_deselected(h: &mut OledHandshake)
    ensures
        final(h)@ == (old(h)@.0, true),
{
    notify_deselected(h);
}

} // verus!
