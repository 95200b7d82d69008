//! Browse/Load UI state machine: the preset list, the facet being drilled
//! into, the cursor, and the two screens drawn from them.
use vstd::prelude::*;
use crate::event::Event;
use crate::index::query::{join, PresetRow};
use crate::proto::types::{DisplayId, Rgb};
use crate::text::{dec, push_dec};
use crate::ui::render::{
    draws, paint, shown_after, Draw, DrawOp, PixelSink, BREADCRUMB_HEIGHT, CHAR_H, ROW_HEIGHT,
    STATUS_HEIGHT,
};

verus! {

/// The facet the user is drilling into.
#[derive(Debug, Clone, Copy, PartialEq, Eq)]
pub enum FacetLevel {
    Type,
    Subtype,
    Mode,
    Vendor,
}

/// What the browse screens show: the active filters, the preset rows with
/// their cursor, and the facet values with theirs.
#[derive(Debug)]
pub struct BrowseState {
    pub facet: Option<FacetLevel>,
    pub type_filter: Option<String>,
    pub subtype_filter: Option<String>,
    pub mode_filter: Option<String>,
    pub vendor_filter: Option<String>,
    pub text_query: Option<String>,
    pub cursor: usize,
    pub rows: Vec<PresetRow>,
    /// Facet values offered while the user drills down.
    pub facet_values: Vec<String>,
    pub facet_cursor: usize,
}

impl Default for BrowseState {
    fn default() -> (s: BrowseState)
        ensures
            s.facet is None,
            s.type_filter is None,
            s.subtype_filter is None,
            s.mode_filter is None,
            s.vendor_filter is None,
            s.text_query is None,
            s.cursor == 0,
            s.rows@.len() == 0,
            s.facet_values@.len() == 0,
            s.facet_cursor == 0,
    {
        BrowseState {
            facet: None,
            type_filter: None,
            subtype_filter: None,
            mode_filter: None,
            vendor_filter: None,
            text_query: None,
            cursor: 0,
            rows: Vec::new(),
            facet_values: Vec::new(),
            facet_cursor: 0,
        }
    }
}

/// `[v]` when the filter is set, else nothing.
pub open spec fn crumb(f: Option<String>) -> Seq<Seq<char>> {
    match f {
        Some(v) => seq![v@],
        None => seq![],
    }
}

/// The breadcrumb parts: `All`, then vendor, type, subtype and mode
/// filters that are set.
pub open spec fn crumbs(s: &BrowseState) -> Seq<Seq<char>> {
    seq!["All"@] + crumb(s.vendor_filter) + crumb(s.type_filter) + crumb(s.subtype_filter) + crumb(
        s.mode_filter,
    )
}

/// Whether nothing but the cursor changed between `a` and `b`.
pub open spec fn same_but_cursor(a: &BrowseState, b: &BrowseState) -> bool {
    &&& a.facet == b.facet
    &&& a.type_filter == b.type_filter
    &&& a.subtype_filter == b.subtype_filter
    &&& a.mode_filter == b.mode_filter
    &&& a.vendor_filter == b.vendor_filter
    &&& a.text_query == b.text_query
    &&& a.rows == b.rows
    &&& a.facet_values == b.facet_values
}

fn push_crumb(out: &mut String, f: &Option<String>, Ghost(parts): Ghost<Seq<Seq<char>>>)
    requires
        parts.len() > 0,
        old(out)@ == join(parts, " / "@),
    ensures
        final(out)@ == join(parts + crumb(*f), " / "@),
{
    match f {
        Some(v) => {
            proof {
                reveal_strlit(" / ");
                assert((parts + crumb(*f)).drop_last() =~= parts);
            }
            out.append(" / ");
            out.append(v.as_str());
        },
        None => {
            assert(parts + crumb(*f) =~= parts);
        },
    }
}

impl BrowseState {
    /// The preset under the cursor, if the cursor is on a row.
    pub fn selected(&self) -> (r: Option<&PresetRow>)
        ensures
            r == if self.cursor < self.rows@.len() {
                Some(&self.rows@[self.cursor as int])
            } else {
                None
            },
    {
        if self.cursor < self.rows.len() {
            Some(&self.rows[self.cursor])
        } else {
            None
        }
    }

    /// The first row of the current view with preset id `id`, if any.
    pub fn find_row(&self, id: i64) -> (r: Option<&PresetRow>)
        ensures
            match r {
                Some(row) => exists|i: int|
                    0 <= i < self.rows@.len() && self.rows@[i] == *row && row.id == id && forall|
                        j: int,
                    |
                        0 <= j < i ==> (#[trigger] self.rows@[j]).id != id,
                None => forall|j: int| 0 <= j < self.rows@.len() ==> (#[trigger] self.rows@[j]).id != id,
            },
    {
        let mut i: usize = 0;
        while i < self.rows.len()
            invariant
                i <= self.rows@.len(),
                forall|j: int| 0 <= j < i ==> (#[trigger] self.rows@[j]).id != id,
            decreases self.rows@.len() - i,
        {
            if self.rows[i].id == id {
                return Some(&self.rows[i]);
            }
            i = i + 1;
        }
        None
    }

    /// Moves the cursor one row up, staying on the first row.
    pub fn cursor_up(&mut self)
        ensures
            final(self).cursor == if old(self).cursor > 0 {
                old(self).cursor - 1
            } else {
                old(self).cursor as int
            },
            same_but_cursor(&*final(self), &*old(self)),
            final(self).facet_cursor == old(self).facet_cursor,
    {
        if self.cursor > 0 {
            self.cursor = self.cursor - 1;
        }
    }

    /// Moves the cursor one row down, staying on the last row.
    pub fn cursor_down(&mut self)
        ensures
            final(self).cursor == if old(self).cursor + 1 < old(self).rows@.len() {
                old(self).cursor + 1
            } else {
                old(self).cursor as int
            },
            same_but_cursor(&*final(self), &*old(self)),
            final(self).facet_cursor == old(self).facet_cursor,
    {
        if self.rows.len() > 0 && self.cursor < self.rows.len() - 1 {
            self.cursor = self.cursor + 1;
        }
    }

    /// Replaces the rows and puts the cursor on the first one.
    pub fn set_rows(&mut self, rows: Vec<PresetRow>)
        ensures
            final(self).rows == rows,
            final(self).cursor == 0,
            final(self).facet == old(self).facet,
            final(self).type_filter == old(self).type_filter,
            final(self).subtype_filter == old(self).subtype_filter,
            final(self).mode_filter == old(self).mode_filter,
            final(self).vendor_filter == old(self).vendor_filter,
            final(self).text_query == old(self).text_query,
            final(self).facet_values == old(self).facet_values,
            final(self).facet_cursor == old(self).facet_cursor,
    {
        self.rows = rows;
        self.cursor = 0;
    }

    /// The breadcrumb of the left display header: `All`, then the vendor,
    /// type, subtype and mode filters that are set, joined by ` / `.
    pub fn breadcrumb(&self) -> (s: String)
        ensures
            s@ == join(crumbs(self), " / "@),
    {
        proof {
            reveal_strlit("All");
        }
        let mut out = String::new();
        out.append("All");
        let ghost p0 = seq!["All"@];
        assert(out@ == join(p0, " / "@));
        push_crumb(&mut out, &self.vendor_filter, Ghost(p0));
        let ghost p1 = p0 + crumb(self.vendor_filter);
        push_crumb(&mut out, &self.type_filter, Ghost(p1));
        let ghost p2 = p1 + crumb(self.type_filter);
        push_crumb(&mut out, &self.subtype_filter, Ghost(p2));
        let ghost p3 = p2 + crumb(self.subtype_filter);
        push_crumb(&mut out, &self.mode_filter, Ghost(p3));
        out
    }
}


/// Colours of the browse screens.
pub open spec fn rgb(r: u8, g: u8, b: u8) -> Rgb {
    Rgb { r, g, b }
}

pub open spec fn bg() -> Rgb {
    rgb(0x05, 0x08, 0x12)
}

pub open spec fn fg() -> Rgb {
    rgb(0xe0, 0xe0, 0xe0)
}

pub open spec fn bar() -> Rgb {
    rgb(0x10, 0x14, 0x22)
}

pub open spec fn status_fg() -> Rgb {
    rgb(0x90, 0xa0, 0xc0)
}

pub open spec fn left_accent() -> Rgb {
    rgb(0xff, 0x80, 0x20)
}

pub open spec fn left_highlight() -> Rgb {
    rgb(0x1c, 0x22, 0x30)
}

pub open spec fn right_accent() -> Rgb {
    rgb(0x20, 0xc0, 0xff)
}

pub open spec fn right_highlight() -> Rgb {
    rgb(0x16, 0x26, 0x34)
}

pub open spec fn dim() -> Rgb {
    rgb(0x70, 0x80, 0x90)
}

/// Top of facet row `i` on the left display.
pub open spec fn facet_y(i: int) -> int {
    BREADCRUMB_HEIGHT + 8 + i * ROW_HEIGHT
}

/// Facet row `i` fits above the status strip of a display `h` pixels high.
pub open spec fn facet_fits(i: int, h: int) -> bool {
    facet_y(i) + ROW_HEIGHT <= h - STATUS_HEIGHT
}

/// How many of `n` facet rows are drawn, from row `i` on: rows are drawn
/// until one does not fit.
pub open spec fn facet_rows_shown(n: int, h: int, i: int) -> int
    decreases n - i,
{
    if i >= n || !facet_fits(i, h) {
        i
    } else {
        facet_rows_shown(n, h, i + 1)
    }
}

/// The drawing of facet row `i`: a highlight bar when the facet cursor is
/// on it, then its text.
pub open spec fn facet_draws(s: &BrowseState, w: int, i: int) -> Seq<Draw> {
    let y = facet_y(i);
    let on = i == s.facet_cursor;
    (if on {
        seq![Draw::Fill(0, y - 2, w, ROW_HEIGHT as int, left_highlight()), Draw::Fill(0, y - 2, 4, ROW_HEIGHT as int, left_accent())]
    } else {
        seq![]
    }) + seq![Draw::Text(12, y + 4, s.facet_values@[i]@, if on { left_accent() } else { fg() })]
}

pub open spec fn facets_upto(s: &BrowseState, w: int, k: int) -> Seq<Draw>
    decreases k,
{
    if k <= 0 {
        seq![]
    } else {
        facets_upto(s, w, k - 1) + facet_draws(s, w, k - 1)
    }
}

/// The left display `w`×`h`: background, breadcrumb header, the facet
/// values that fit, and a status strip with the number of presets.
pub open spec fn left_draws(s: &BrowseState, w: int, h: int) -> Seq<Draw> {
    let n = facet_rows_shown(s.facet_values@.len() as int, h, 0);
    let sy = h - STATUS_HEIGHT;
    seq![Draw::Fill(0, 0, w, h, bg()), Draw::Fill(0, 0, w, BREADCRUMB_HEIGHT as int, bar()), Draw::Text(8, 8, join(crumbs(s), " / "@), fg())]
        + facets_upto(s, w, n) + seq![Draw::Fill(0, sy, w, STATUS_HEIGHT as int, bar()), Draw::Text(8, sy + 8, dec(s.rows@.len()) + " presets"@, status_fg())]
}

/// Preset rows that fit on the right display of height `h`, one row kept
/// free.
pub open spec fn visible_rows(h: int) -> int {
    let v = (h - STATUS_HEIGHT) / (ROW_HEIGHT as int);
    if v >= 1 {
        v - 1
    } else {
        0
    }
}

/// First preset row drawn: the cursor is kept in the middle when it can.
pub open spec fn first_row(cursor: int, visible: int) -> int {
    if cursor >= visible / 2 {
        cursor - visible / 2
    } else {
        0
    }
}

/// Number of preset rows drawn from row `start`.
pub open spec fn rows_shown(len: int, start: int, visible: int) -> int {
    if len <= start {
        0
    } else if len - start < visible {
        len - start
    } else {
        visible
    }
}

/// The drawing of the `k`-th row drawn (preset `start + k`): a highlight
/// bar under the cursor, the preset name, and its bank chain.
pub open spec fn row_draws(s: &BrowseState, w: int, start: int, k: int) -> Seq<Draw> {
    let y = 8 + k * ROW_HEIGHT;
    let on = start + k == s.cursor;
    let row = s.rows@[start + k];
    (if on {
        seq![Draw::Fill(0, y - 2, w, ROW_HEIGHT as int, right_highlight()), Draw::Fill(0, y - 2, 4, ROW_HEIGHT as int, right_accent())]
    } else {
        seq![]
    }) + seq![Draw::Text(12, y + 2, row.name@, if on { right_accent() } else { fg() }), Draw::Text(12, y + 14, row.bank_chain@, dim())]
}

pub open spec fn rows_upto(s: &BrowseState, w: int, start: int, k: int) -> Seq<Draw>
    decreases k,
{
    if k <= 0 {
        seq![]
    } else {
        rows_upto(s, w, start, k - 1) + row_draws(s, w, start, k - 1)
    }
}

/// Caption of the selected preset: its vendor, or its plugin when the
/// vendor is unknown.
pub open spec fn caption(row: PresetRow) -> Seq<char> {
    if row.vendor@.len() == 0 {
        row.plugin_ref@
    } else {
        row.vendor@
    }
}

/// The right display `w`×`h`: background, the preset rows around the
/// cursor, and a status strip with the selected preset's caption.
pub open spec fn right_draws(s: &BrowseState, w: int, h: int) -> Seq<Draw> {
    let visible = visible_rows(h);
    let start = first_row(s.cursor as int, visible);
    let m = rows_shown(s.rows@.len() as int, start, visible);
    let sy = h - STATUS_HEIGHT;
    seq![Draw::Fill(0, 0, w, h, bg())] + rows_upto(s, w, start, m) + seq![Draw::Fill(0, sy, w, STATUS_HEIGHT as int, bar())]
        + if s.cursor < s.rows@.len() {
        seq![Draw::Text(8, sy + 8, caption(s.rows@[s.cursor as int]), status_fg())]
    } else {
        seq![]
    }
}

/// Every text step leaves room for a glyph row below it.
pub open spec fn texts_fit(ops: Seq<DrawOp>) -> bool {
    forall|i: int|
        0 <= i < ops.len() ==> match #[trigger] ops[i] {
            DrawOp::Text { y, .. } => y + CHAR_H <= u16::MAX + 1,
            DrawOp::Fill { .. } => true,
        }
}

proof fn lemma_facet_rows_shown(n: int, h: int, i: int, j: int)
    requires
        0 <= j <= i <= n,
        forall|k: int| 0 <= k < i ==> #[trigger] facet_fits(k, h),
        i == n || !facet_fits(i, h),
    ensures
        facet_rows_shown(n, h, j) == i,
    decreases i - j,
{
    if j < i {
        lemma_facet_rows_shown(n, h, i, j + 1);
    }
}

fn fill(x: u16, y: u16, w: u16, h: u16, color: Rgb) -> (o: DrawOp)
    ensures
        o.view() == Draw::Fill(x as int, y as int, w as int, h as int, color),
{
    DrawOp::Fill { x, y, w, h, color }
}

fn text(x: u16, y: u16, s: String, color: Rgb) -> (o: DrawOp)
    ensures
        o.view() == Draw::Text(x as int, y as int, s@, color),
{
    DrawOp::Text { x, y, text: s, color }
}

fn push_op(ops: &mut Vec<DrawOp>, o: DrawOp)
    requires
        match o {
            DrawOp::Text { y, .. } => y + CHAR_H <= u16::MAX + 1,
            DrawOp::Fill { .. } => true,
        },
        texts_fit(old(ops)@),
    ensures
        final(ops)@ == old(ops)@.push(o),
        draws(final(ops)@) == draws(old(ops)@).push(o.view()),
        texts_fit(final(ops)@),
{
    ops.push(o);
    assert(draws(ops@) =~= draws(old(ops)@).push(o.view()));
}

impl BrowseState {
    /// The drawing steps of the left display of size `w`×`h`.
    pub fn render_left(&self, w: u16, h: u16) -> (ops: Vec<DrawOp>)
        requires
            h >= STATUS_HEIGHT,
        ensures
            draws(ops@) == left_draws(self, w as int, h as int),
            texts_fit(ops@),
    {
        let bg = Rgb::new(0x05, 0x08, 0x12);
        let c_fg = Rgb::new(0xe0, 0xe0, 0xe0);
        let c_accent = Rgb::new(0xff, 0x80, 0x20);
        let c_bar = Rgb::new(0x10, 0x14, 0x22);
        let mut ops: Vec<DrawOp> = Vec::new();
        push_op(&mut ops, fill(0, 0, w, h, bg));
        push_op(&mut ops, fill(0, 0, w, BREADCRUMB_HEIGHT, c_bar));
        push_op(&mut ops, text(8, 8, self.breadcrumb(), c_fg));
        let ghost head = draws(ops@);
        let limit: u32 = (h - STATUS_HEIGHT) as u32;
        let first_y: u32 = (BREADCRUMB_HEIGHT + 8) as u32;
        let row_h: u32 = ROW_HEIGHT as u32;
        let n = self.facet_values.len();
        let mut i: usize = 0;
        while i < n && first_y as u64 + (i as u64) * (row_h as u64) + row_h as u64 <= limit as u64
            invariant
                n == self.facet_values@.len(),
                c_fg == fg(),
                c_accent == left_accent(),
                limit == h - STATUS_HEIGHT,
                first_y == BREADCRUMB_HEIGHT + 8,
                row_h == ROW_HEIGHT,
                i <= n,
                i == 0 || facet_fits(i - 1, h as int),
                forall|k: int| 0 <= k < i ==> #[trigger] facet_fits(k, h as int),
                draws(ops@) == head + facets_upto(self, w as int, i as int),
                texts_fit(ops@),
            decreases n - i,
        {
            let y: u16 = (first_y + (i as u32) * row_h) as u16;
            assert(y as int == facet_y(i as int));
            let ghost before = draws(ops@);
            let on = i == self.facet_cursor;
            if on {
                push_op(&mut ops, fill(0, y - 2, w, ROW_HEIGHT, Rgb::new(0x1c, 0x22, 0x30)));
                push_op(&mut ops, fill(0, y - 2, 4, ROW_HEIGHT, c_accent));
            }
            push_op(
                &mut ops,
                text(
                    12,
                    y + 4,
                    self.facet_values[i].clone(),
                    if on {
                        c_accent
                    } else {
                        c_fg
                    },
                ),
            );
            assert(draws(ops@) =~= before + facet_draws(self, w as int, i as int));
            assert(draws(ops@) =~= head + facets_upto(self, w as int, i + 1));
            i = i + 1;
        }
        proof {
            lemma_facet_rows_shown(n as int, h as int, i as int, 0);
        }
        let sy: u16 = h - STATUS_HEIGHT;
        push_op(&mut ops, fill(0, sy, w, STATUS_HEIGHT, c_bar));
        let mut label = String::new();
        push_dec(&mut label, self.rows.len() as u64);
        proof {
            reveal_strlit(" presets");
        }
        label.append(" presets");
        push_op(&mut ops, text(8, sy + 8, label, Rgb::new(0x90, 0xa0, 0xc0)));
        assert(draws(ops@) =~= left_draws(self, w as int, h as int));
        ops
    }

    /// The drawing steps of the right display of size `w`×`h`.
    pub fn render_right(&self, w: u16, h: u16) -> (ops: Vec<DrawOp>)
        requires
            h >= STATUS_HEIGHT,
        ensures
            draws(ops@) == right_draws(self, w as int, h as int),
            texts_fit(ops@),
    {
        let c_fg = Rgb::new(0xe0, 0xe0, 0xe0);
        let c_dim = Rgb::new(0x70, 0x80, 0x90);
        let c_accent = Rgb::new(0x20, 0xc0, 0xff);
        let mut ops: Vec<DrawOp> = Vec::new();
        push_op(&mut ops, fill(0, 0, w, h, Rgb::new(0x05, 0x08, 0x12)));
        let ghost head = draws(ops@);
        let v = (h - STATUS_HEIGHT) / ROW_HEIGHT;
        let visible: usize = if v >= 1 {
            (v - 1) as usize
        } else {
            0
        };
        let start: usize = if self.cursor >= visible / 2 {
            self.cursor - visible / 2
        } else {
            0
        };
        let len = self.rows.len();
        let m: usize = if len <= start {
            0
        } else if len - start < visible {
            len - start
        } else {
            visible
        };
        assert(visible == visible_rows(h as int));
        assert(m <= visible);
        let mut k: usize = 0;
        while k < m
            invariant
                len == self.rows@.len(),
                c_fg == fg(),
                c_accent == right_accent(),
                c_dim == dim(),
                visible == visible_rows(h as int),
                start == first_row(self.cursor as int, visible as int),
                m == rows_shown(len as int, start as int, visible as int),
                m <= visible,
                m > 0 ==> start + m <= len,
                k <= m,
                draws(ops@) == head + rows_upto(self, w as int, start as int, k as int),
                texts_fit(ops@),
            decreases m - k,
        {
            assert(8 + k * ROW_HEIGHT + ROW_HEIGHT <= h) by (nonlinear_arith)
                requires
                    k < visible,
                    visible == visible_rows(h as int),
                    h >= STATUS_HEIGHT,
            ;
            let y: u16 = 8 + (k as u16) * ROW_HEIGHT;
            assert(y as int == 8 + k * ROW_HEIGHT);
            let ghost before = draws(ops@);
            let on = start + k == self.cursor;
            if on {
                push_op(&mut ops, fill(0, y - 2, w, ROW_HEIGHT, Rgb::new(0x16, 0x26, 0x34)));
                push_op(&mut ops, fill(0, y - 2, 4, ROW_HEIGHT, c_accent));
            }
            let row = &self.rows[start + k];
            push_op(
                &mut ops,
                text(
                    12,
                    y + 2,
                    row.name.clone(),
                    if on {
                        c_accent
                    } else {
                        c_fg
                    },
                ),
            );
            push_op(&mut ops, text(12, y + 14, row.bank_chain.clone(), c_dim));
            assert(draws(ops@) =~= before + row_draws(self, w as int, start as int, k as int));
            assert(draws(ops@) =~= head + rows_upto(self, w as int, start as int, k + 1));
            k = k + 1;
        }
        let sy: u16 = h - STATUS_HEIGHT;
        push_op(&mut ops, fill(0, sy, w, STATUS_HEIGHT, Rgb::new(0x10, 0x14, 0x22)));
        match self.selected() {
            Some(sel) => {
                let cap = if sel.vendor.unicode_len() == 0 {
                    sel.plugin_ref.clone()
                } else {
                    sel.vendor.clone()
                };
                push_op(&mut ops, text(8, sy + 8, cap, Rgb::new(0x90, 0xa0, 0xc0)));
            },
            None => {},
        }
        assert(draws(ops@) =~= right_draws(self, w as int, h as int));
        ops
    }

    /// Draws the browse screen of display `which` onto `sink`. A sink lower
    /// than the status strip is left untouched.
    pub fn render<S: PixelSink>(&self, which: DisplayId, sink: &mut S)
        ensures
            S::models_pixels() ==> final(sink).columns() == old(sink).columns()
                && final(sink).lines() == old(sink).lines(),
            S::models_pixels() ==> forall|p: int, q: int|
                #[trigger] final(sink).pixel(p, q) == if old(sink).lines() < STATUS_HEIGHT {
                    old(sink).pixel(p, q)
                } else {
                    shown_after(
                        &*old(sink),
                        screen_draws(self, which, old(sink).columns(), old(sink).lines()),
                        p,
                        q,
                    )
                },
    {
        let w = sink.width();
        let h = sink.height();
        if h < STATUS_HEIGHT {
            return;
        }
        let ops = match which {
            DisplayId::Left => self.render_left(w, h),
            DisplayId::Right => self.render_right(w, h),
        };
        paint(&ops, sink);
    }
}

/// The drawing steps of the browse screen on display `which`, `w`×`h`
/// pixels.
pub open spec fn screen_draws(s: &BrowseState, which: DisplayId, w: int, h: int) -> Seq<Draw> {
    match which {
        DisplayId::Left => left_draws(s, w, h),
        DisplayId::Right => right_draws(s, w, h),
    }
}

/// The preset cursor after `delta` rows of scrolling (down when positive)
/// over `len` rows, one row at a time, stopping at either end.
pub open spec fn scrolled(cursor: int, delta: int, len: int) -> int {
    if delta > 0 {
        if cursor + 1 < len {
            if cursor + delta < len - 1 {
                cursor + delta
            } else {
                len - 1
            }
        } else {
            cursor
        }
    } else if cursor + delta >= 0 {
        cursor + delta
    } else {
        0
    }
}

/// The sign of `d`: -1, 0 or 1.
pub open spec fn sign(d: int) -> int {
    if d > 0 {
        1
    } else if d < 0 {
        -1
    } else {
        0
    }
}

/// The state after a navigation event: macro encoder 2 scrolls the preset
/// cursor by the turn, macro encoder 0 steps the facet cursor one value in
/// the direction of the turn, wrapping round; other events change nothing.
pub open spec fn nav_spec(old_s: &BrowseState, new_s: &BrowseState, ev: Event, changed: bool) -> bool {
    match ev {
        Event::MacroEncoder { index, delta, .. } => if index == 2 {
            &&& changed
            &&& new_s.cursor == scrolled(old_s.cursor as int, delta as int, old_s.rows@.len() as int)
            &&& same_but_cursor(new_s, old_s)
            &&& new_s.facet_cursor == old_s.facet_cursor
        } else if index == 0 && old_s.facet_values@.len() > 0 {
            &&& changed
            &&& new_s.facet_cursor == (old_s.facet_cursor + sign(delta as int)) % (
            old_s.facet_values@.len() as int)
            &&& same_but_cursor(new_s, old_s)
            &&& new_s.cursor == old_s.cursor
        } else {
            !changed && *new_s == *old_s
        },
        _ => !changed && *new_s == *old_s,
    }
}

impl BrowseState {
    /// Applies a navigation event; says whether the screens need repainting.
    pub fn apply_nav(&mut self, ev: &Event) -> (changed: bool)
        ensures
            nav_spec(&*old(self), &*final(self), *ev, changed),
    {
        match ev {
            Event::MacroEncoder { index, delta, .. } => {
                if *index == 2 {
                    let steps: u16 = if *delta >= 0 {
                        *delta as u16
                    } else {
                        (-(*delta as i32)) as u16
                    };
                    let ghost c0 = self.cursor as int;
                    let ghost len = self.rows@.len() as int;
                    let mut k: u16 = 0;
                    while k < steps
                        invariant
                            k <= steps,
                            steps as int == if *delta >= 0 {
                                *delta as int
                            } else {
                                -(*delta as int)
                            },
                            len == self.rows@.len(),
                            self.cursor as int == scrolled(
                                c0,
                                if *delta > 0 {
                                    k as int
                                } else {
                                    -(k as int)
                                },
                                len,
                            ),
                            same_but_cursor(&*self, &*old(self)),
                            self.facet_cursor == old(self).facet_cursor,
                            c0 == old(self).cursor,
                        decreases steps - k,
                    {
                        if *delta > 0 {
                            self.cursor_down();
                        } else {
                            self.cursor_up();
                        }
                        k = k + 1;
                    }
                    true
                } else if *index == 0 {
                    let n = self.facet_values.len();
                    if n > 0 {
                        let r = self.facet_cursor % n;
                        let next = if *delta > 0 {
                            if r + 1 == n {
                                0
                            } else {
                                r + 1
                            }
                        } else if *delta < 0 {
                            if r == 0 {
                                n - 1
                            } else {
                                r - 1
                            }
                        } else {
                            r
                        };
                        proof {
                            let f = self.facet_cursor as int;
                            let nn = n as int;
                            if *delta > 0 {
                                vstd::arithmetic::div_mod::lemma_add_mod_noop_right(1, f, nn);
                                if r + 1 == n {
                                    vstd::arithmetic::div_mod::lemma_mod_self_0(nn);
                                } else {
                                    vstd::arithmetic::div_mod::lemma_small_mod(
                                        (r + 1) as nat,
                                        nn as nat,
                                    );
                                }
                                assert((f + 1) % nn == next);
                            } else if *delta < 0 {
                                vstd::arithmetic::div_mod::lemma_sub_mod_noop(f, 1, nn);
                                if nn == 1 {
                                    assert(1int % 1 == 0);
                                    assert(r == 0);
                                    assert((0int - 0) % 1 == 0);
                                } else {
                                    vstd::arithmetic::div_mod::lemma_small_mod(1, nn as nat);
                                    if r == 0 {
                                        vstd::arithmetic::div_mod::lemma_mod_add_multiples_vanish(
                                            -1,
                                            nn,
                                        );
                                        vstd::arithmetic::div_mod::lemma_small_mod(
                                            (nn - 1) as nat,
                                            nn as nat,
                                        );
                                    } else {
                                        vstd::arithmetic::div_mod::lemma_small_mod(
                                            (r - 1) as nat,
                                            nn as nat,
                                        );
                                    }
                                }
                                assert((f - 1) % nn == next);
                            }
                        }
                        self.facet_cursor = next;
                        true
                    } else {
                        false
                    }
                } else {
                    false
                }
            },
            _ => false,
        }
    }
}

} // verus!
