//! Colours and the RGB pad grid buffer.
use vstd::prelude::*;

verus! {

/// An RGB colour, 0–255 per channel.
#[derive(Debug, Clone, Copy, PartialEq, Eq, Structural)]
pub struct Color {
    pub r: u8,
    pub g: u8,
    pub b: u8,
}

impl Default for Color {
    /// All channels off.
    fn default() -> (c: Color)
        ensures
            c == (Color { r: 0, g: 0, b: 0 }),
    {
        Color { r: 0, g: 0, b: 0 }
    }
}

/// The sector (0–5) of hue `h` on the colour wheel, and where in it `h`
/// lies (0–255).
pub open spec fn spec_hue_sector(h: u8) -> (int, int) {
    ((h * 6) / 256, (h * 6) % 256)
}

/// The colour of hue `h`, saturation `s` and value `v` (each 0–255, `h`
/// wrapping the wheel): grey `v` without saturation, else the six-sector
/// integer HSV formula.
pub open spec fn spec_hsv(h: u8, s: u8, v: u8) -> Color {
    if s == 0 {
        Color { r: v, g: v, b: v }
    } else {
        let (h6, f) = spec_hue_sector(h);
        let p = (v * (255 - s) / 256) as u8;
        let q = (v * (255 - s * f / 256) / 256) as u8;
        let t = (v * (255 - s * (255 - f) / 256) / 256) as u8;
        if h6 == 0 {
            Color { r: v, g: t, b: p }
        } else if h6 == 1 {
            Color { r: q, g: v, b: p }
        } else if h6 == 2 {
            Color { r: p, g: v, b: t }
        } else if h6 == 3 {
            Color { r: p, g: q, b: v }
        } else if h6 == 4 {
            Color { r: t, g: p, b: v }
        } else {
            Color { r: v, g: p, b: q }
        }
    }
}

impl Color {
    /// All channels off.
    pub fn black() -> (c: Color)
        ensures
            c == (Color { r: 0, g: 0, b: 0 }),
    {
        Color { r: 0, g: 0, b: 0 }
    }

    /// Full white.
    pub fn white() -> (c: Color)
        ensures
            c == (Color { r: 255, g: 255, b: 255 }),
    {
        Color { r: 255, g: 255, b: 255 }
    }

    /// A colour from raw 8-bit channels.
    pub fn rgb(r: u8, g: u8, b: u8) -> (c: Color)
        ensures
            c == (Color { r, g, b }),
    {
        Color { r, g, b }
    }

    /// A colour from hue / saturation / value (see [`spec_hsv`]).
    pub fn hsv(h: u8, s: u8, v: u8) -> (c: Color)
        ensures
            c == spec_hsv(h, s, v),
    {
        if s == 0 {
            return Color { r: v, g: v, b: v };
        }
        let hh = h as u32 * 6;
        let h6 = hh >> 8;
        let f = hh & 0xFF;
        assert(hh >> 8 == hh / 256 && hh & 0xFF == hh % 256) by (bit_vector);
        assert(f < 256);
        assert(s as u32 * f <= 65025 && s as u32 * (255 - f) <= 65025) by (nonlinear_arith)
            requires
                f < 256,
        ;
        let sf = (s as u32 * f) >> 8;
        let sf_prod = s as u32 * f;
        assert(sf_prod >> 8 == sf_prod / 256) by (bit_vector);
        assert(sf <= 255) by (nonlinear_arith)
            requires
                sf == (s as u32 * f) / 256,
                f < 256,
        ;
        let sg_prod = s as u32 * (255 - f);
        let sg = sg_prod >> 8;
        assert(sg_prod >> 8 == sg_prod / 256) by (bit_vector);
        assert(sg <= 255) by (nonlinear_arith)
            requires
                sg == (s as u32 * (255 - f)) / 256,
                f < 256,
        ;
        assert(v as u32 * (255 - s as u32) <= 65025 && v as u32 * (255 - sf) <= 65025 && v as u32
            * (255 - sg) <= 65025) by (nonlinear_arith)
            requires
                sf <= 255,
                sg <= 255,
        ;
        let pp = v as u32 * (255 - s as u32);
        let qq = v as u32 * (255 - sf);
        let tt = v as u32 * (255 - sg);
        assert(pp >> 8 == pp / 256 && qq >> 8 == qq / 256 && tt >> 8 == tt / 256)
            by (bit_vector);
        let p = (pp >> 8) as u8;
        let q = (qq >> 8) as u8;
        let t = (tt >> 8) as u8;
        let (r, g, b) = match h6 {
            0 => (v, t, p),
            1 => (q, v, p),
            2 => (p, v, t),
            3 => (p, q, v),
            4 => (t, p, v),
            _ => (v, p, q),
        };
        Color { r, g, b }
    }

    /// The channels as `[r, g, b]`.
    pub fn to_rgb(self) -> (a: [u8; 3])
        ensures
            a@ == seq![self.r, self.g, self.b],
    {
        let a = [self.r, self.g, self.b];
        assert(a@ =~= seq![self.r, self.g, self.b]);
        a
    }
}

/// `v * a / 256` grows with `a` and stays below 255.
proof fn lemma_scale_mono(v: int, a: int, b: int)
    requires
        0 <= v <= 255,
        0 <= a <= b <= 255,
    ensures
        v * a / 256 <= v * b / 256,
        v * b / 256 <= 254,
        0 <= v * a / 256,
{
    assert(v * a <= v * b) by (nonlinear_arith)
        requires 0 <= v, a <= b;
    assert(v * b <= 255 * 255) by (nonlinear_arith)
        requires 0 <= v <= 255, 0 <= b <= 255;
    assert(0 <= v * a) by (nonlinear_arith)
        requires 0 <= v, 0 <= a;
}

/// `s * g / 256` lies between 0 and `s`, and grows with `g`.
proof fn lemma_part(s: int, g1: int, g2: int)
    requires
        0 <= s <= 255,
        0 <= g1 <= g2 <= 255,
    ensures
        0 <= s * g1 / 256 <= s * g2 / 256 <= s,
{
    assert(s * g1 <= s * g2) by (nonlinear_arith)
        requires 0 <= s, g1 <= g2;
    assert(s * g2 <= s * 256) by (nonlinear_arith)
        requires 0 <= s, g2 <= 255;
    assert(0 <= s * g1) by (nonlinear_arith)
        requires 0 <= s, 0 <= g1;
}

/// The HSV colours: without saturation a grey of the value; with it, one
/// channel is the value, one the floor `v * (255 - s) / 256`, and the third
/// lies between them, which channel is which being set by the hue's sector
/// of the wheel (red, yellow, green, cyan, blue, magenta in turn): sector 0
/// r ≥ g ≥ b, 1 g ≥ r ≥ b, 2 g ≥ b ≥ r, 3 b ≥ g ≥ r, 4 b ≥ r ≥ g,
/// 5 r ≥ b ≥ g.
pub proof fn lemma_hsv_channels(h: u8, s: u8, v: u8)
    ensures
        ({
            let c = spec_hsv(h, s, v);
            let sector = h * 6 / 256;
            let low = v * (255 - s) / 256;
            &&& s == 0 ==> c.r == v && c.g == v && c.b == v
            &&& s > 0 && sector == 0 ==> c.r == v && c.b == low && c.r >= c.g >= c.b
            &&& s > 0 && sector == 1 ==> c.g == v && c.b == low && c.g >= c.r >= c.b
            &&& s > 0 && sector == 2 ==> c.g == v && c.r == low && c.g >= c.b >= c.r
            &&& s > 0 && sector == 3 ==> c.b == v && c.r == low && c.b >= c.g >= c.r
            &&& s > 0 && sector == 4 ==> c.b == v && c.g == low && c.b >= c.r >= c.g
            &&& s > 0 && sector == 5 ==> c.r == v && c.g == low && c.r >= c.b >= c.g
        }),
{
    if s > 0 {
        let (h6, f) = spec_hue_sector(h);
        assert(0 <= f < 256);
        assert(0 <= h6 <= 5);
        let sf = s * f / 256;
        let sg = s * (255 - f) / 256;
        lemma_part(s as int, f, 255);
        lemma_part(s as int, 255 - f, 255);
        lemma_part(s as int, 0, 255);
        lemma_scale_mono(v as int, 255 - s, 255 - sf);
        lemma_scale_mono(v as int, 255 - s, 255 - sg);
        lemma_scale_mono(v as int, 255 - sf, 255);
        lemma_scale_mono(v as int, 255 - sg, 255);
        assert(v * 255 / 256 <= v) by (nonlinear_arith)
            requires 0 <= v;
    }
}

/// Within one sector of the wheel, moving the hue forward moves the middle
/// channel towards the next sector's colour: it rises in sectors 0, 2 and 4
/// (green, blue, red coming in) and falls in sectors 1, 3 and 5 (red, green,
/// blue going out).
pub proof fn lemma_hsv_middle_channel_moves(h1: u8, h2: u8, s: u8, v: u8)
    requires
        h1 <= h2,
        h1 * 6 / 256 == h2 * 6 / 256,
        s > 0,
    ensures
        ({
            let c1 = spec_hsv(h1, s, v);
            let c2 = spec_hsv(h2, s, v);
            let sector = h1 * 6 / 256;
            &&& sector == 0 ==> c1.g <= c2.g
            &&& sector == 1 ==> c1.r >= c2.r
            &&& sector == 2 ==> c1.b <= c2.b
            &&& sector == 3 ==> c1.g >= c2.g
            &&& sector == 4 ==> c1.r <= c2.r
            &&& sector == 5 ==> c1.b >= c2.b
        }),
{
    let (_, f1) = spec_hue_sector(h1);
    let (_, f2) = spec_hue_sector(h2);
    assert(f1 <= f2);
    lemma_part(s as int, f1, f2);
    lemma_part(s as int, 255 - f2, 255 - f1);
    lemma_part(s as int, f2, 255);
    lemma_part(s as int, 255 - f1, 255);
    let sf1 = s * f1 / 256;
    let sf2 = s * f2 / 256;
    let sg1 = s * (255 - f1) / 256;
    let sg2 = s * (255 - f2) / 256;
    lemma_scale_mono(v as int, 255 - sg1, 255 - sg2);
    lemma_scale_mono(v as int, 255 - sf2, 255 - sf1);
}

/// Pad columns (16 main + 2 sidebar).
pub const COLS: usize = 18;
/// Pad rows.
pub const ROWS: usize = 8;

/// The pad colour buffer, 18 x 8; `x` 0–17, `y` 0–7, matching pad events.
pub struct Pads {
    cells: Vec<Color>,
}

impl Pads {
    /// The colour buffered for every pad, row by row (`y * COLS + x`).
    pub closed spec fn cells(&self) -> Seq<Color> {
        self.cells@
    }

    pub closed spec fn wf(&self) -> bool {
        self.cells@.len() == COLS * ROWS
    }

    /// The colour buffered for pad (`x`, `y`).
    pub open spec fn spec_at(&self, x: int, y: int) -> Color {
        self.cells()[y * COLS + x]
    }

    /// All pads off.
    pub fn new() -> (p: Pads)
        ensures
            p.wf(),
            forall|i: int| 0 <= i < COLS * ROWS ==> p.cells()[i] == (Color { r: 0, g: 0, b: 0 }),
    {
        let mut cells: Vec<Color> = Vec::new();
        while cells.len() < COLS * ROWS
            invariant
                cells@.len() <= COLS * ROWS,
                forall|i: int| 0 <= i < cells@.len() ==> cells@[i] == (Color { r: 0, g: 0, b: 0 }),
            decreases COLS * ROWS - cells@.len(),
        {
            cells.push(Color { r: 0, g: 0, b: 0 });
        }
        Pads { cells }
    }

    /// Buffer `color` for pad (`x`, `y`); out-of-range coordinates are
    /// ignored.
    pub fn set(&mut self, x: usize, y: usize, color: Color)
        requires
            old(self).wf(),
        ensures
            final(self).wf(),
            x < COLS && y < ROWS ==> final(self).cells() == old(self).cells().update(
                y * COLS + x,
                color,
            ),
            !(x < COLS && y < ROWS) ==> final(self).cells() == old(self).cells(),
    {
        if x < COLS && y < ROWS {
            self.cells.set(y * COLS + x, color);
        }
    }

    /// Turn every pad off.
    pub fn clear(&mut self)
        requires
            old(self).wf(),
        ensures
            final(self).wf(),
            forall|i: int|
                0 <= i < COLS * ROWS ==> final(self).cells()[i] == (Color { r: 0, g: 0, b: 0 }),
    {
        let mut i: usize = 0;
        while i < self.cells.len()
            invariant
                self.cells@.len() == COLS * ROWS,
                i <= self.cells@.len(),
                forall|j: int| 0 <= j < i ==> self.cells@[j] == (Color { r: 0, g: 0, b: 0 }),
            decreases self.cells@.len() - i,
        {
            self.cells.set(i, Color { r: 0, g: 0, b: 0 });
            i += 1;
        }
    }

    /// The colour buffered for pad (`x`, `y`).
    pub fn color_at(&self, x: usize, y: usize) -> (c: Color)
        requires
            self.wf(),
            x < COLS,
            y < ROWS,
        ensures
            c == self.spec_at(x as int, y as int),
    {
        self.cells[y * COLS + x]
    }
}

/// Reading a pad back gives the colour last set for it, and setting one pad
/// leaves every other pad as it was.
pub proof fn lemma_set_then_read(before: Pads, after: Pads, x: int, y: int, c: Color, x2: int, y2: int)
    requires
        before.wf(),
        0 <= x < COLS,
        0 <= y < ROWS,
        0 <= x2 < COLS,
        0 <= y2 < ROWS,
        after.cells() == before.cells().update(y * COLS + x, c),
    ensures
        after.spec_at(x, y) == c,
        (x2, y2) != (x, y) ==> after.spec_at(x2, y2) == before.spec_at(x2, y2),
{
    if (x2, y2) != (x, y) {
        assert(y2 * COLS + x2 != y * COLS + x) by (nonlinear_arith)
            requires
                (x2, y2) != (x, y),
                0 <= x < COLS,
                0 <= x2 < COLS,
        ;
    }
}

} // verus!
