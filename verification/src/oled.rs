//! The OLED display's frame: 128 x 48 one-bit pixels, drawn off-screen and
//! then pushed to the panel.
use vstd::prelude::*;

verus! {

/// Panel width in pixels.
pub const WIDTH: usize = 128;
/// Panel height in pixels.
pub const HEIGHT: usize = 48;

/// An off-screen frame: one bit per pixel, row by row (`y * WIDTH + x`).
pub struct FrameBuffer {
    px: Vec<bool>,
}

impl FrameBuffer {
    /// Which pixels are lit, row by row.
    pub closed spec fn pixels(&self) -> Seq<bool> {
        self.px@
    }

    pub closed spec fn wf(&self) -> bool {
        self.px@.len() == WIDTH * HEIGHT
    }

    /// A dark frame.
    pub fn new() -> (f: FrameBuffer)
        ensures
            f.wf(),
            forall|i: int| 0 <= i < WIDTH * HEIGHT ==> !f.pixels()[i],
    {
        let mut px: Vec<bool> = Vec::new();
        while px.len() < WIDTH * HEIGHT
            invariant
                px@.len() <= WIDTH * HEIGHT,
                forall|i: int| 0 <= i < px@.len() ==> !px@[i],
            decreases WIDTH * HEIGHT - px@.len(),
        {
            px.push(false);
        }
        FrameBuffer { px }
    }

    /// Light (`on`) or darken every pixel.
    pub fn fill(&mut self, on: bool)
        requires
            old(self).wf(),
        ensures
            final(self).wf(),
            forall|i: int| 0 <= i < WIDTH * HEIGHT ==> final(self).pixels()[i] == on,
    {
        let mut i: usize = 0;
        while i < self.px.len()
            invariant
                self.px@.len() == WIDTH * HEIGHT,
                i <= self.px@.len(),
                forall|j: int| 0 <= j < i ==> self.px@[j] == on,
            decreases self.px@.len() - i,
        {
            self.px.set(i, on);
            i += 1;
        }
    }

    /// Set pixel (`x`, `y`); coordinates past the right or bottom edge are
    /// ignored.
    pub fn set_pixel(&mut self, x: usize, y: usize, on: bool)
        requires
            old(self).wf(),
        ensures
            final(self).wf(),
            x < WIDTH && y < HEIGHT ==> final(self).pixels() == old(self).pixels().update(
                y * WIDTH + x,
                on,
            ),
            !(x < WIDTH && y < HEIGHT) ==> final(self).pixels() == old(self).pixels(),
    {
        if x < WIDTH && y < HEIGHT {
            self.px.set(y * WIDTH + x, on);
        }
    }

    /// Whether pixel (`x`, `y`) is lit.
    pub fn pixel(&self, x: usize, y: usize) -> (on: bool)
        requires
            self.wf(),
            x < WIDTH,
            y < HEIGHT,
        ensures
            on == self.pixels()[y * WIDTH + x],
    {
        self.px[y * WIDTH + x]
    }
}

/// Reading a pixel back gives the value last set for it, and setting one
/// pixel leaves every other pixel as it was.
pub proof fn lemma_set_then_read(before: FrameBuffer, after: FrameBuffer, x: int, y: int, on: bool, x2: int, y2: int)
    requires
        before.wf(),
        0 <= x < WIDTH,
        0 <= y < HEIGHT,
        0 <= x2 < WIDTH,
        0 <= y2 < HEIGHT,
        after.pixels() == before.pixels().update(y * WIDTH + x, on),
    ensures
        after.pixels()[y * WIDTH + x] == on,
        (x2, y2) != (x, y) ==> after.pixels()[y2 * WIDTH + x2] == before.pixels()[y2 * WIDTH + x2],
{
    if (x2, y2) != (x, y) {
        assert(y2 * WIDTH + x2 != y * WIDTH + x) by (nonlinear_arith)
            requires
                (x2, y2) != (x, y),
                0 <= x < WIDTH,
                0 <= x2 < WIDTH,
        ;
    }
    assert(0 <= y * WIDTH + x < WIDTH * HEIGHT) by (nonlinear_arith)
        requires
            0 <= x < WIDTH,
            0 <= y < HEIGHT,
    ;
}

/// The display: a frame to draw into, pushed to the panel by the caller.
pub struct Oled {
    fb: FrameBuffer,
}

impl Oled {
    /// The frame being drawn.
    pub closed spec fn frame_view(&self) -> FrameBuffer {
        self.fb
    }

    /// A display with a dark frame.
    pub fn new() -> (o: Oled)
        ensures
            o.frame_view().wf(),
            forall|i: int| 0 <= i < WIDTH * HEIGHT ==> !o.frame_view().pixels()[i],
    {
        Oled { fb: FrameBuffer::new() }
    }

    /// Darken the whole frame (shown on the next push).
    pub fn clear(&mut self)
        requires
            old(self).frame_view().wf(),
        ensures
            final(self).frame_view().wf(),
            forall|i: int| 0 <= i < WIDTH * HEIGHT ==> !final(self).frame_view().pixels()[i],
    {
        self.fb.fill(false);
    }

    /// Direct access to the frame.
    pub fn frame(&mut self) -> (f: &mut FrameBuffer)
        ensures
            *f == old(self).frame_view(),
            final(self).frame_view() == *final(f),
    {
        &mut self.fb
    }

    /// Read access to the frame.
    pub fn frame_ref(&self) -> (f: &FrameBuffer)
        ensures
            *f == self.frame_view(),
    {
        &self.fb
    }

    /// Draw one pixel at signed coordinates (a drawing library's pixel):
    /// negative coordinates are dropped, the frame ignores those past its
    /// right and bottom edges.
    pub fn draw_pixel(&mut self, x: i32, y: i32, on: bool)
        requires
            old(self).frame_view().wf(),
        ensures
            final(self).frame_view().wf(),
            (0 <= x < WIDTH && 0 <= y < HEIGHT) ==> final(self).frame_view().pixels() == old(
                self,
            ).frame_view().pixels().update(y * WIDTH + x, on),
            !(0 <= x < WIDTH && 0 <= y < HEIGHT) ==> final(self).frame_view().pixels() == old(
                self,
            ).frame_view().pixels(),
    {
        if x >= 0 && y >= 0 {
            self.fb.set_pixel(x as usize, y as usize, on);
        }
    }

    /// The panel size in pixels, (width, height).
    pub fn size(&self) -> (wh: (u32, u32))
        ensures
            wh == (WIDTH as u32, HEIGHT as u32),
    {
        (WIDTH as u32, HEIGHT as u32)
    }
}

} // verus!
