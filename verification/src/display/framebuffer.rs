//! CPU-side RGB565 framebuffer backing one display.
use vstd::prelude::*;
use crate::proto::types::{rgb565, Rgb, DISPLAY_PIXEL_COUNT};
use crate::display::dirty::{on_screen, rect_tile, DirtyTracker, TILE};
use crate::ui::render::PixelSink;

verus! {

const W: usize = 480;
const H: usize = 272;

/// RGB565 framebuffer in native endianness plus the tiles changed since the
/// last encode.
pub struct Framebuffer {
    pixels: Vec<u16>,
    dirty: DirtyTracker,
}

/// Pixel `(x, y)` of a row-major 480-wide image.
pub open spec fn at(px: Seq<u16>, x: int, y: int) -> u16 {
    px[y * 480 + x]
}

/// `(x, y)` is a pixel of the screen.
pub open spec fn on_display(x: int, y: int) -> bool {
    0 <= x < 480 && 0 <= y < 272
}

/// The clipped extent `[x0, x1) x [y0, y1)` that `fill_rect` paints.
pub open spec fn clip_lo(v: int, bound: int) -> int {
    if v < bound {
        v
    } else {
        bound
    }
}

impl Framebuffer {
    /// The pixels, row-major, 480 per row.
    pub closed spec fn px(&self) -> Seq<u16> {
        self.pixels@
    }

    /// The dirty-tile set.
    pub closed spec fn tiles(&self) -> DirtyTracker {
        self.dirty
    }

    /// The buffer holds exactly one screen of pixels.
    pub closed spec fn wf(&self) -> bool {
        self.pixels@.len() == DISPLAY_PIXEL_COUNT
    }

    pub proof fn lemma_wf_len(&self)
        requires
            self.wf(),
        ensures
            self.px().len() == DISPLAY_PIXEL_COUNT,
    {
    }

    /// A black screen with no dirty tile.
    pub fn new() -> (fb: Framebuffer)
        ensures
            fb.wf(),
            fb.tiles().clean(),
            forall|i: int| 0 <= i < DISPLAY_PIXEL_COUNT ==> #[trigger] fb.px()[i] == 0,
    {
        Framebuffer { pixels: vec![0u16; W * H], dirty: DirtyTracker::new() }
    }

    pub fn width(&self) -> (w: usize)
        ensures
            w == 480,
    {
        W
    }

    pub fn height(&self) -> (h: usize)
        ensures
            h == 272,
    {
        H
    }

    pub fn pixels(&self) -> (p: &[u16])
        ensures
            p@ == self.px(),
    {
        self.pixels.as_slice()
    }

    /// Raw mutable access to the pixels. Callers that write through it must
    /// mark the changed region with [`Framebuffer::touch`].
    pub fn pixels_mut(&mut self) -> (p: &mut [u16])
        ensures
            p@ == old(self).px(),
            final(p)@ == final(self).px(),
            final(self).tiles() == old(self).tiles(),
    {
        self.pixels.as_mut_slice()
    }

    pub fn is_dirty(&self) -> (d: bool)
        ensures
            d == !self.tiles().clean(),
    {
        !self.dirty.is_empty()
    }

    /// Paints the whole screen `color` and marks every tile dirty.
    pub fn clear(&mut self, color: Rgb)
        requires
            old(self).wf(),
        ensures
            final(self).wf(),
            forall|i: int| 0 <= i < DISPLAY_PIXEL_COUNT ==> #[trigger] final(self).px()[i] == rgb565(color),
            forall|c: int, r: int| #[trigger] final(self).tiles().dirty(c, r) <==> on_screen(c, r),
    {
        let v = color.to_rgb565();
        let mut i: usize = 0;
        while i < self.pixels.len()
            invariant
                i <= self.pixels@.len(),
                self.pixels@.len() == DISPLAY_PIXEL_COUNT,
                forall|j: int| 0 <= j < i ==> #[trigger] self.pixels@[j] == v,
            decreases self.pixels@.len() - i,
        {
            self.pixels[i] = v;
            i = i + 1;
        }
        self.dirty.mark_full();
    }

    /// Sets one pixel and marks its tile; off-screen coordinates are ignored.
    pub fn set_pixel(&mut self, x: u16, y: u16, c: Rgb)
        requires
            old(self).wf(),
        ensures
            final(self).wf(),
            on_display(x as int, y as int) ==> final(self).px() == old(self).px().update(
                y * 480 + x,
                rgb565(c),
            ),
            !on_display(x as int, y as int) ==> final(self).px() == old(self).px(),
            forall|cc: int, rr: int| #[trigger]
                final(self).tiles().dirty(cc, rr) <==> (old(self).tiles().dirty(cc, rr) || (
                on_display(x as int, y as int) && cc == x / 16 && rr == y / 16)),
    {
        if (x as usize) >= W || (y as usize) >= H {
            return;
        }
        self.pixels[y as usize * W + x as usize] = c.to_rgb565();
        self.dirty.mark_pixel(x, y);
    }

    /// Marks a rectangle dirty after the caller drew into it directly.
    pub fn touch(&mut self, x: u16, y: u16, w: u16, h: u16)
        ensures
            final(self).px() == old(self).px(),
            final(self).wf() == old(self).wf(),
            forall|c: int, r: int| #[trigger]
                final(self).tiles().dirty(c, r) <==> (old(self).tiles().dirty(c, r) || rect_tile(
                    x as int,
                    y as int,
                    w as int,
                    h as int,
                    c,
                    r,
                )),
    {
        self.dirty.mark_rect(x, y, w, h);
    }

    /// Fills the rectangle with `c`, clipped to the screen, and marks the
    /// tiles it covers.
    pub fn fill_rect(&mut self, x: u16, y: u16, w: u16, h: u16, c: Rgb)
        requires
            old(self).wf(),
        ensures
            final(self).wf(),
            ({
                let x0 = clip_lo(x as int, 480);
                let y0 = clip_lo(y as int, 272);
                let x1 = clip_lo(x0 + w, 480);
                let y1 = clip_lo(y0 + h, 272);
                &&& forall|px: int, py: int|
                    on_display(px, py) ==> #[trigger] at(final(self).px(), px, py) == if x0 <= px < x1
                        && y0 <= py < y1 {
                        rgb565(c)
                    } else {
                        at(old(self).px(), px, py)
                    }
                &&& forall|cc: int, rr: int| #[trigger]
                    final(self).tiles().dirty(cc, rr) <==> (old(self).tiles().dirty(cc, rr) || (x0
                        < x1 && y0 < y1 && rect_tile(x0, y0, x1 - x0, y1 - y0, cc, rr)))
            }),
    {
        let x0 = if (x as usize) < W {
            x as usize
        } else {
            W
        };
        let y0 = if (y as usize) < H {
            y as usize
        } else {
            H
        };
        let x1 = if x0 + (w as usize) < W {
            x0 + w as usize
        } else {
            W
        };
        let y1 = if y0 + (h as usize) < H {
            y0 + h as usize
        } else {
            H
        };
        if x0 == x1 || y0 == y1 {
            return;
        }
        let v = c.to_rgb565();
        let ghost start = self.pixels@;
        let mut yy = y0;
        while yy < y1
            invariant
                y0 <= yy <= y1 <= H,
                x0 < x1 <= W,
                self.pixels@.len() == DISPLAY_PIXEL_COUNT,
                start.len() == DISPLAY_PIXEL_COUNT,
                self.dirty == old(self).dirty,
                forall|px: int, py: int|
                    on_display(px, py) ==> #[trigger] at(self.pixels@, px, py) == if x0 <= px < x1
                        && y0 <= py < yy {
                        v
                    } else {
                        at(start, px, py)
                    },
            decreases H - yy,
        {
            let mut xx = x0;
            while xx < x1
                invariant
                    y0 <= yy < y1 <= H,
                    x0 <= xx <= x1 <= W,
                    self.pixels@.len() == DISPLAY_PIXEL_COUNT,
                    start.len() == DISPLAY_PIXEL_COUNT,
                    self.dirty == old(self).dirty,
                    forall|px: int, py: int|
                        on_display(px, py) ==> #[trigger] at(self.pixels@, px, py) == if (x0 <= px
                            < x1 && y0 <= py < yy) || (x0 <= px < xx && py == yy) {
                            v
                        } else {
                            at(start, px, py)
                        },
                decreases W - xx,
            {
                let ghost before = self.pixels@;
                self.pixels[yy * W + xx] = v;
                assert forall|px: int, py: int| on_display(px, py) implies #[trigger] at(
                    self.pixels@,
                    px,
                    py,
                ) == if (x0 <= px < x1 && y0 <= py < yy) || (x0 <= px < xx + 1 && py == yy) {
                    v
                } else {
                    at(start, px, py)
                } by {
                    if py * 480 + px == yy * 480 + xx {
                        assert(py == yy && px == xx);
                    } else {
                        assert(at(self.pixels@, px, py) == at(before, px, py));
                    }
                }
                xx = xx + 1;
            }
            yy = yy + 1;
        }
        self.dirty.mark_rect(x0 as u16, y0 as u16, (x1 - x0) as u16, (y1 - y0) as u16);
    }
}

impl Framebuffer {
    /// The dirty runs, as [`DirtyTracker::runs`] gives them.
    pub fn dirty_runs(&self) -> (v: Vec<(usize, usize, usize)>)
        ensures
            v@ == self.tiles().runs_spec(),
    {
        self.dirty.runs()
    }

    /// Forgets every dirty tile once the screen has been encoded.
    pub fn mark_encoded(&mut self)
        ensures
            final(self).px() == old(self).px(),
            final(self).wf() == old(self).wf(),
            final(self).tiles().clean(),
    {
        self.dirty.clear();
    }
}

impl Default for Framebuffer {
    fn default() -> (fb: Framebuffer)
        ensures
            fb.wf(),
            fb.tiles().clean(),
    {
        Framebuffer::new()
    }
}

/// The colour an RGB565 word shows: each channel scaled back to eight
/// bits.
pub open spec fn rgb_of565(w: u16) -> Rgb {
    Rgb { r: ((w / 2048) * 8) as u8, g: ((w / 32 % 64) * 4) as u8, b: ((w % 32) * 8) as u8 }
}

/// The browse screens draw straight into a framebuffer: it shows the
/// RGB565 rendering of what is written, on its 480×272 pixels.
impl PixelSink for Framebuffer {
    open spec fn models_pixels() -> bool {
        true
    }

    open spec fn pixel(&self, i: int, j: int) -> Rgb {
        if self.wf() && on_display(i, j) {
            rgb_of565(at(self.px(), i, j))
        } else {
            Rgb { r: 0, g: 0, b: 0 }
        }
    }

    open spec fn columns(&self) -> int {
        if self.wf() {
            480
        } else {
            0
        }
    }

    open spec fn lines(&self) -> int {
        if self.wf() {
            272
        } else {
            0
        }
    }

    open spec fn shown(c: Rgb) -> Rgb {
        rgb_of565(rgb565(c))
    }

    fn width(&self) -> (w: u16) {
        if self.pixels.len() == W * H {
            480
        } else {
            0
        }
    }

    fn height(&self) -> (h: u16) {
        if self.pixels.len() == W * H {
            272
        } else {
            0
        }
    }

    fn set(&mut self, x: u16, y: u16, c: Rgb) {
        if self.pixels.len() == W * H {
            self.set_pixel(x, y, c);
            assert forall|i: int, j: int|
                on_display(i, j) && !(i == x && j == y) implies #[trigger] at(self.px(), i, j)
                == at(old(self).px(), i, j) by {
                if on_display(x as int, y as int) {
                    assert(j * 480 + i != y * 480 + x);
                }
            }
        }
    }
}

} // verus!
