//! Drawing onto a pixel sink: rectangles, outlines and text in a 6×8
//! bitmap font, and the display list the browse screens are made of.
use vstd::prelude::*;
use crate::proto::types::Rgb;
use crate::ui::font::{font_table, glyph};

verus! {

/// Glyph cell width in pixels.
pub const CHAR_W: u16 = 6;

/// Glyph cell height in pixels.
pub const CHAR_H: u16 = 8;

/// Height of the breadcrumb header of the left display.
pub const BREADCRUMB_HEIGHT: u16 = 24;

/// Height of one list row.
pub const ROW_HEIGHT: u16 = 28;

/// Height of the status strip at the bottom of both displays.
pub const STATUS_HEIGHT: u16 = 24;

/// Something pixels can be written to. Implementors supply the size and
/// the single-pixel write; rectangles, outlines and text (in the 6×8 font
/// of `font`) are drawn through `set`.
///
/// A sink may describe what it shows by `pixel`, `columns`, `lines` and
/// `shown` and say so by `models_pixels`; the methods then keep the
/// promises below. A sink that does not (the default) is promised nothing
/// about what ends up on it.
pub trait PixelSink {
    /// Whether the sink keeps the promises stated over its model.
    open spec fn models_pixels() -> bool {
        false
    }

    /// The colour the sink shows at `(i, j)`.
    open spec fn pixel(&self, i: int, j: int) -> Rgb {
        Rgb { r: 0, g: 0, b: 0 }
    }

    /// The width of the sink in pixels.
    open spec fn columns(&self) -> int {
        0
    }

    /// The height of the sink in pixels.
    open spec fn lines(&self) -> int {
        0
    }

    /// The colour the sink shows once `c` is written: `c` itself unless
    /// its storage keeps less of it.
    open spec fn shown(c: Rgb) -> Rgb {
        c
    }

    fn width(&self) -> (w: u16)
        ensures
            Self::models_pixels() ==> w == self.columns(),
    ;

    fn height(&self) -> (h: u16)
        ensures
            Self::models_pixels() ==> h == self.lines(),
    ;

    /// Writes `c` at `(x, y)` when that pixel is on the sink; nothing else
    /// changes.
    fn set(&mut self, x: u16, y: u16, c: Rgb)
        ensures
            Self::models_pixels() ==> (final(self).columns() == old(self).columns() && final(self).lines() == old(self).lines()),
            Self::models_pixels() ==> forall|i: int, j: int|
                #[trigger] final(self).pixel(i, j) == if i == x && j == y && on_screen(old(self).columns(), old(self).lines(), i, j) {
                    Self::shown(c)
                } else {
                    old(self).pixel(i, j)
                },
    ;

    /// Writes every pixel of the `w`×`h` rectangle at `(x, y)`, cut at the
    /// largest coordinate.
    fn fill_rect(&mut self, x: u16, y: u16, w: u16, h: u16, c: Rgb)
        ensures
            Self::models_pixels() ==> (final(self).columns() == old(self).columns() && final(self).lines() == old(self).lines()),
            Self::models_pixels() ==> forall|i: int, j: int|
                #[trigger] final(self).pixel(i, j) == match draw_writes(old(self).columns(), old(self).lines(), Draw::Fill(x as int, y as int, w as int, h as int, c), i, j) {
                    Some(v) => Self::shown(v),
                    None => old(self).pixel(i, j),
                },
    {
        let y_end = y.saturating_add(h);
        let x_end = x.saturating_add(w);
        let mut yy = y;
        while yy < y_end
            invariant
                y <= yy <= y_end,
                x <= x_end,
                y_end == (if y + h > u16::MAX { u16::MAX as int } else { y + h }),
                x_end == (if x + w > u16::MAX { u16::MAX as int } else { x + w }),
                Self::models_pixels() ==> (self.columns() == old(self).columns() && self.lines() == old(self).lines()),
                Self::models_pixels() ==> forall|i: int, j: int|
                    #[trigger] self.pixel(i, j) == if on_screen(old(self).columns(), old(self).lines(), i, j) && x <= i
                        < x_end && y <= j < yy {
                        Self::shown(c)
                    } else {
                        old(self).pixel(i, j)
                    },
            decreases y_end - yy,
        {
            let mut xx = x;
            while xx < x_end
                invariant
                    y <= yy < y_end,
                    x <= xx <= x_end,
                    Self::models_pixels() ==> (self.columns() == old(self).columns() && self.lines() == old(self).lines()),
                    Self::models_pixels() ==> forall|i: int, j: int|
                        #[trigger] self.pixel(i, j) == if on_screen(old(self).columns(), old(self).lines(), i, j) && ((x
                            <= i < x_end && y <= j < yy) || (x <= i < xx && j == yy)) {
                            Self::shown(c)
                        } else {
                            old(self).pixel(i, j)
                        },
                decreases x_end - xx,
            {
                self.set(xx, yy, c);
                xx = xx + 1;
            }
            yy = yy + 1;
        }
    }

    /// Writes the border pixels of the `w`×`h` rectangle at `(x, y)`;
    /// nothing for an empty rectangle.
    fn outline_rect(&mut self, x: u16, y: u16, w: u16, h: u16, c: Rgb)
        requires
            x + w <= u16::MAX,
            y + h <= u16::MAX,
        ensures
            Self::models_pixels() ==> (final(self).columns() == old(self).columns() && final(self).lines() == old(self).lines()),
            Self::models_pixels() ==> forall|i: int, j: int|
                #[trigger] final(self).pixel(i, j) == if on_screen(old(self).columns(), old(self).lines(), i, j) && in_outline(
                    x as int,
                    y as int,
                    w as int,
                    h as int,
                    i,
                    j,
                ) {
                    Self::shown(c)
                } else {
                    old(self).pixel(i, j)
                },
    {
        if w == 0 || h == 0 {
            return;
        }
        let mut xx = x;
        while xx < x + w
            invariant
                x + w <= u16::MAX,
                y + h <= u16::MAX,
                w > 0 && h > 0,
                x <= xx <= x + w,
                Self::models_pixels() ==> (self.columns() == old(self).columns() && self.lines() == old(self).lines()),
                Self::models_pixels() ==> forall|i: int, j: int|
                    #[trigger] self.pixel(i, j) == if on_screen(old(self).columns(), old(self).lines(), i, j) && x <= i < xx
                        && (j == y || j == y + h - 1) {
                        Self::shown(c)
                    } else {
                        old(self).pixel(i, j)
                    },
            decreases x + w - xx,
        {
            self.set(xx, y, c);
            self.set(xx, y + h - 1, c);
            xx = xx + 1;
        }
        let mut yy = y;
        while yy < y + h
            invariant
                x + w <= u16::MAX,
                y + h <= u16::MAX,
                w > 0 && h > 0,
                y <= yy <= y + h,
                Self::models_pixels() ==> (self.columns() == old(self).columns() && self.lines() == old(self).lines()),
                Self::models_pixels() ==> forall|i: int, j: int|
                    #[trigger] self.pixel(i, j) == if on_screen(old(self).columns(), old(self).lines(), i, j) && ((x <= i
                        < x + w && (j == y || j == y + h - 1)) || (y <= j < yy && (i == x || i
                        == x + w - 1))) {
                        Self::shown(c)
                    } else {
                        old(self).pixel(i, j)
                    },
            decreases y + h - yy,
        {
            self.set(x, yy, c);
            self.set(x + w - 1, yy, c);
            yy = yy + 1;
        }
    }

    /// Draws `text` from `(x, y)` one glyph cell per character, stopping
    /// before the first glyph that would cross the right edge; returns the
    /// x coordinate after the last glyph drawn.
    fn draw_text(&mut self, x: u16, y: u16, text: &str, color: Rgb) -> (end: u16)
        requires
            y + CHAR_H <= u16::MAX + 1,
        ensures
            end >= x,
            (end - x) % (CHAR_W as int) == 0,
            (end - x) / (CHAR_W as int) <= text@.len(),
            Self::models_pixels() ==> end == x + CHAR_W * glyphs_fit(
                x as int,
                old(self).columns(),
                text@.len() as int,
            ),
            Self::models_pixels() ==> (final(self).columns() == old(self).columns() && final(self).lines() == old(self).lines()),
            Self::models_pixels() ==> forall|i: int, j: int|
                #[trigger] final(self).pixel(i, j) == match draw_writes(old(self).columns(), old(self).lines(), Draw::Text(x as int, y as int, text@, color), i, j) {
                    Some(v) => Self::shown(v),
                    None => old(self).pixel(i, j),
                },
    {
        let n = text.unicode_len();
        let mut x = x;
        let ghost x0 = x;
        let mut k: usize = 0;
        while k < n
            invariant
                n == text@.len(),
                y + CHAR_H <= u16::MAX + 1,
                k <= n,
                x >= x0,
                x - x0 == CHAR_W * k,
                Self::models_pixels() ==> k <= glyphs_fit(x0 as int, old(self).columns(), n as int),
                Self::models_pixels() ==> (self.columns() == old(self).columns() && self.lines() == old(self).lines()),
                Self::models_pixels() ==> forall|i: int, j: int|
                    #[trigger] self.pixel(i, j) == if on_screen(old(self).columns(), old(self).lines(), i, j)
                        && text_lights(x0 as int, y as int, text@, k as int, i, j) {
                        Self::shown(color)
                    } else {
                        old(self).pixel(i, j)
                    },
            ensures
                Self::models_pixels() ==> k == glyphs_fit(x0 as int, old(self).columns(), n as int),
            decreases n - k,
        {
            let ch = text.get_char(k);
            if x as u32 + CHAR_W as u32 > self.width() as u32 {
                proof {
                    if Self::models_pixels() {
                        lemma_fit_stops(x0 as int, k as int, old(self).columns(), n as int);
                    }
                }
                break;
            }
            proof {
                if Self::models_pixels() {
                    lemma_fit_grows(x0 as int, k as int, old(self).columns(), n as int);
                }
            }
            let g = glyph(ch);
            let mut col: u16 = 0;
            while col < CHAR_W
                invariant
                    x as u32 + CHAR_W as u32 <= u16::MAX,
                    y + CHAR_H <= u16::MAX + 1,
                    col <= CHAR_W,
                    n == text@.len(),
                    k < n,
                    ch == text@[k as int],
                    x >= x0,
                    x - x0 == CHAR_W * k,
                    g@ == font_table(ch),
                    Self::models_pixels() ==> x + CHAR_W <= old(self).columns(),
                    Self::models_pixels() ==> (self.columns() == old(self).columns() && self.lines() == old(self).lines()),
                    Self::models_pixels() ==> forall|i: int, j: int|
                        #[trigger] self.pixel(i, j) == if on_screen(old(self).columns(), old(self).lines(), i, j) && (
                        text_lights(x0 as int, y as int, text@, k as int, i, j)
                            || glyph_part(x as int, y as int, font_table(ch), col as int, 0, i, j)) {
                            Self::shown(color)
                        } else {
                            old(self).pixel(i, j)
                        },
                decreases CHAR_W - col,
            {
                let bits = g[col as usize];
                let mut row: u16 = 0;
                while row < CHAR_H
                    invariant
                        x as u32 + CHAR_W as u32 <= u16::MAX,
                        y + CHAR_H <= u16::MAX + 1,
                        col < CHAR_W,
                        row <= CHAR_H,
                        x >= x0,
                        bits == font_table(ch)[col as int],
                        Self::models_pixels() ==> x + CHAR_W <= old(self).columns(),
                        Self::models_pixels() ==> (self.columns() == old(self).columns() && self.lines() == old(self).lines()),
                        Self::models_pixels() ==> forall|i: int, j: int|
                            #[trigger] self.pixel(i, j) == if on_screen(old(self).columns(), old(self).lines(), i, j) && (
                            text_lights(x0 as int, y as int, text@, k as int, i, j)
                                || glyph_part(
                                x as int,
                                y as int,
                                font_table(ch),
                                col as int,
                                row as int,
                                i,
                                j,
                            )) {
                                Self::shown(color)
                            } else {
                                old(self).pixel(i, j)
                            },
                    decreases CHAR_H - row,
                {
                    if (bits >> row) & 1 != 0 {
                        self.set(x + col, y + row, color);
                    }
                    row = row + 1;
                }
                col = col + 1;
            }
            proof {
                if Self::models_pixels() {
                    assert forall|i: int, j: int|
                        text_lights(x0 as int, y as int, text@, k + 1, i, j) == (
                        text_lights(x0 as int, y as int, text@, k as int, i, j)
                            || glyph_part(x as int, y as int, font_table(ch), CHAR_W as int, 0, i, j))
                        by {
                        lemma_text_step(x0 as int, y as int, text@, k as int, i, j);
                    }
                }
            }
            x = x + CHAR_W;
            k = k + 1;
        }
        x
    }
}

/// Whether row `row` of the glyph column `bits` is lit.
pub open spec fn lit(bits: u8, row: u16) -> bool {
    (bits >> row) & 1 != 0
}

/// Whether `(i, j)` lies on a sink `cols` wide and `lines` high.
pub open spec fn on_screen(cols: int, lines: int, i: int, j: int) -> bool {
    0 <= i < cols && 0 <= j < lines
}

/// Whether the `w`×`h` rectangle at `(x, y)`, cut at the largest `u16`
/// coordinate, covers `(i, j)`.
pub open spec fn in_fill(x: int, y: int, w: int, h: int, i: int, j: int) -> bool {
    x <= i < x + w && i < u16::MAX && y <= j < y + h && j < u16::MAX
}

/// Whether `(i, j)` is on the border of the `w`×`h` rectangle at `(x, y)`.
pub open spec fn in_outline(x: int, y: int, w: int, h: int, i: int, j: int) -> bool {
    &&& x <= i < x + w
    &&& y <= j < y + h
    &&& (i == x || i == x + w - 1 || j == y || j == y + h - 1)
}

/// How many glyph cells of a `len`-character text fit from `x` on a sink
/// `width` pixels wide.
pub open spec fn glyphs_fit(x: int, width: int, len: int) -> int {
    if x + CHAR_W > width {
        0
    } else if len <= (width - x) / (CHAR_W as int) {
        len
    } else {
        (width - x) / (CHAR_W as int)
    }
}

/// Whether the first `n` glyphs of `t`, drawn from `(x, y)`,
/// light `(i, j)`.
pub open spec fn text_lights(
    x: int,
    y: int,
    t: Seq<char>,
    n: int,
    i: int,
    j: int,
) -> bool {
    &&& x <= i < x + CHAR_W * n
    &&& y <= j < y + CHAR_H
    &&& lit(font_table(t[(i - x) / (CHAR_W as int)])[(i - x) % (CHAR_W as int)], (j - y) as u16)
}

/// Whether the glyph with columns `cols` and its cell at `(gx, y)`, drawn
/// up to column `col` and, in that column, up to row `row`, lights
/// `(i, j)`.
pub open spec fn glyph_part(
    gx: int,
    y: int,
    cols: Seq<u8>,
    col: int,
    row: int,
    i: int,
    j: int,
) -> bool {
    &&& gx <= i
    &&& ((i < gx + col && y <= j < y + CHAR_H) || (i == gx + col && y <= j < y + row))
    &&& lit(cols[i - gx], (j - y) as u16)
}

/// The colour `d` writes at `(i, j)` of a sink `cols`×`lines`, or `None`
/// where it writes nothing.
pub open spec fn draw_writes(
    cols: int,
    lines: int,
    d: Draw,
    i: int,
    j: int,
) -> Option<Rgb> {
    if !on_screen(cols, lines, i, j) {
        None
    } else {
        match d {
            Draw::Fill(x, y, w, h, c) => if in_fill(x, y, w, h, i, j) {
                Some(c)
            } else {
                None
            },
            Draw::Text(x, y, t, c) => if text_lights(
                x,
                y,
                t,
                glyphs_fit(x, cols, t.len() as int),
                i,
                j,
            ) {
                Some(c)
            } else {
                None
            },
        }
    }
}

/// The colour `(i, j)` of `s` shows once the steps `ds` are drawn in order.
pub open spec fn shown_after<S: PixelSink + ?Sized>(s: &S, ds: Seq<Draw>, i: int, j: int) -> Rgb
    decreases ds.len(),
{
    if ds.len() == 0 {
        s.pixel(i, j)
    } else {
        match draw_writes(s.columns(), s.lines(), ds.last(), i, j) {
            Some(c) => S::shown(c),
            None => shown_after(s, ds.drop_last(), i, j),
        }
    }
}

proof fn lemma_fit_grows(x0: int, k: int, width: int, n: int)
    requires
        0 <= x0,
        0 <= k < n,
        x0 + CHAR_W * k + CHAR_W <= width,
    ensures
        k + 1 <= glyphs_fit(x0, width, n),
{
    assert((width - x0) / 6 >= k + 1) by (nonlinear_arith)
        requires
            x0 + 6 * k + 6 <= width,
    ;
}

proof fn lemma_fit_stops(x0: int, k: int, width: int, n: int)
    requires
        0 <= x0,
        0 <= k,
        x0 + CHAR_W * k + CHAR_W > width,
    ensures
        glyphs_fit(x0, width, n) <= k,
{
    if x0 + 6 <= width {
        assert((width - x0) / 6 <= k) by (nonlinear_arith)
            requires
                x0 + 6 * k + 6 > width,
                width - x0 >= 0,
        ;
    }
}

proof fn lemma_text_step(
    x0: int,
    y: int,
    t: Seq<char>,
    k: int,
    i: int,
    j: int,
)
    requires
        0 <= k,
    ensures
        text_lights(x0, y, t, k + 1, i, j) == (text_lights(x0, y, t, k, i, j)
            || glyph_part(x0 + CHAR_W * k, y, font_table(t[k]), CHAR_W as int, 0, i, j)),
{
    if x0 + 6 * k <= i < x0 + 6 * k + 6 {
        assert((i - x0) / 6 == k && (i - x0) % 6 == i - x0 - 6 * k) by (nonlinear_arith)
            requires
                x0 + 6 * k <= i < x0 + 6 * k + 6,
        ;
    }
}

/// One drawing step of a screen.
#[derive(Debug, Clone, PartialEq, Eq)]
pub enum DrawOp {
    /// `fill_rect(x, y, w, h, color)`.
    Fill { x: u16, y: u16, w: u16, h: u16, color: Rgb },
    /// `draw_text(x, y, text, color)`.
    Text { x: u16, y: u16, text: String, color: Rgb },
}

/// A drawing step with its text as characters.
pub enum Draw {
    Fill(int, int, int, int, Rgb),
    Text(int, int, Seq<char>, Rgb),
}

impl DrawOp {
    pub open spec fn view(self) -> Draw {
        match self {
            DrawOp::Fill { x, y, w, h, color } => Draw::Fill(x as int, y as int, w as int, h as int, color),
            DrawOp::Text { x, y, text, color } => Draw::Text(x as int, y as int, text@, color),
        }
    }
}

/// The steps of `ops` as characters-level drawing steps.
pub open spec fn draws(ops: Seq<DrawOp>) -> Seq<Draw> {
    ops.map_values(|o: DrawOp| o.view())
}

/// Performs the steps of `ops` on `sink`, in order.
pub fn paint<S: PixelSink>(ops: &Vec<DrawOp>, sink: &mut S)
    requires
        forall|i: int|
            0 <= i < ops@.len() ==> match #[trigger] ops@[i] {
                DrawOp::Text { y, .. } => y + CHAR_H <= u16::MAX + 1,
                DrawOp::Fill { .. } => true,
            },
    ensures
        S::models_pixels() ==> final(sink).columns() == old(sink).columns() && final(sink).lines()
            == old(sink).lines(),
        S::models_pixels() ==> forall|p: int, q: int|
            #[trigger] final(sink).pixel(p, q) == shown_after(&*old(sink), draws(ops@), p, q),
{
    let mut i: usize = 0;
    while i < ops.len()
        invariant
            i <= ops@.len(),
            forall|j: int|
                0 <= j < ops@.len() ==> match #[trigger] ops@[j] {
                    DrawOp::Text { y, .. } => y + CHAR_H <= u16::MAX + 1,
                    DrawOp::Fill { .. } => true,
                },
            S::models_pixels() ==> sink.columns() == old(sink).columns() && sink.lines() == old(
                sink,
            ).lines(),
            S::models_pixels() ==> forall|p: int, q: int|
                #[trigger] sink.pixel(p, q) == shown_after(
                    &*old(sink),
                    draws(ops@).take(i as int),
                    p,
                    q,
                ),
        decreases ops@.len() - i,
    {
        let ghost before = draws(ops@).take(i as int);
        proof {
            assert(draws(ops@).take(i + 1).drop_last() =~= before);
            assert(draws(ops@).take(i + 1).last() == ops@[i as int].view());
        }
        match &ops[i] {
            DrawOp::Fill { x, y, w, h, color } => sink.fill_rect(*x, *y, *w, *h, *color),
            DrawOp::Text { x, y, text, color } => {
                sink.draw_text(*x, *y, text.as_str(), *color);
            },
        }
        i = i + 1;
    }
    proof {
        assert(draws(ops@).take(ops@.len() as int) =~= draws(ops@));
    }
}

} // verus!
