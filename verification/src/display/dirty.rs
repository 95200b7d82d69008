//! Dirty-tile tracker for one 480x272 display.
//!
//! The screen is divided into 16x16 tiles: 30 columns by 17 rows, 510 bits
//! packed into eight 64-bit words. Bit `row * 30 + col` is tile `(col, row)`.
use vstd::prelude::*;

verus! {

pub const TILE: usize = 16;
pub const COLS: usize = 30;
pub const ROWS: usize = 17;

/// Set of dirty 16x16 tiles of one display.
pub struct DirtyTracker {
    bits: [u64; 8],
}

/// Tile `(c, r)` lies on the screen.
pub open spec fn on_screen(c: int, r: int) -> bool {
    0 <= c < COLS && 0 <= r < ROWS
}

/// The tiles that a rectangle `(x, y, w, h)` touches.
pub open spec fn rect_tile(x: int, y: int, w: int, h: int, c: int, r: int) -> bool {
    &&& w > 0 && h > 0
    &&& on_screen(c, r)
    &&& x / 16 <= c <= (x + w - 1) / 16
    &&& y / 16 <= r <= (y + h - 1) / 16
}

/// Bit `k` of word `w` is set.
pub open spec fn word_bit(w: u64, k: int) -> bool {
    (w >> (k as u64)) & 1 == 1
}

proof fn lemma_set_bit(w: u64, k: u64, k2: u64)
    requires
        k < 64,
        k2 < 64,
    ensures
        ((w | (1u64 << k)) >> k2) & 1 == 1 <==> (k2 == k || (w >> k2) & 1 == 1),
{
    assert(((w | (1u64 << k)) >> k2) & 1 == 1 <==> (k2 == k || (w >> k2) & 1 == 1))
        by (bit_vector)
        requires
            k < 64,
            k2 < 64,
    ;
}

proof fn lemma_set_bit_bounded(w: u64, k: u64)
    requires
        k < 62,
        w < 0x4000000000000000,
    ensures
        (w | (1u64 << k)) < 0x4000000000000000,
{
    assert((w | (1u64 << k)) < 0x4000000000000000) by (bit_vector)
        requires
            k < 62,
            w < 0x4000000000000000,
    ;
}

proof fn lemma_zero_no_bit(k: u64)
    requires
        k < 64,
    ensures
        (0u64 >> k) & 1 == 0,
{
    assert((0u64 >> k) & 1 == 0) by (bit_vector);
}

proof fn lemma_high_bits_clear(w: u64, k: u64)
    requires
        w < 0x4000000000000000,
        62 <= k < 64,
    ensures
        (w >> k) & 1 == 0,
{
    assert((w >> k) & 1 == 0) by (bit_vector)
        requires
            w < 0x4000000000000000,
            62 <= k < 64,
    ;
}

proof fn lemma_nonzero_has_bit(w: u64, n: u64)
    requires
        n < 64,
        (w >> n) != 0,
    ensures
        exists|k: u64| n <= k < 64 && (w >> k) & 1 == 1,
    decreases 64 - n,
{
    if (w >> n) & 1 == 1 {
    } else {
        assert(n < 63 && (w >> (n + 1) as u64) != 0) by (bit_vector)
            requires
                n < 64,
                (w >> n) != 0,
                (w >> n) & 1 != 1,
        ;
        lemma_nonzero_has_bit(w, (n + 1) as u64);
    }
}

proof fn lemma_full_word_bits(k: u64)
    requires
        k < 64,
    ensures
        (0xffff_ffff_ffff_ffffu64 >> k) & 1 == 1,
        k < 62 ==> (0x3fff_ffff_ffff_ffffu64 >> k) & 1 == 1,
{
    assert((0xffff_ffff_ffff_ffffu64 >> k) & 1 == 1) by (bit_vector)
        requires
            k < 64,
    ;
    assert(k < 62 ==> (0x3fff_ffff_ffff_ffffu64 >> k) & 1 == 1) by (bit_vector);
}

impl DirtyTracker {
    #[verifier::type_invariant]
    spec fn inv(self) -> bool {
        self.bits@[7] < 0x4000000000000000
    }

    /// Tile `(c, r)` is dirty.
    pub closed spec fn dirty(self, c: int, r: int) -> bool {
        on_screen(c, r) && word_bit(self.bits@[(r * 30 + c) / 64], (r * 30 + c) % 64)
    }

    /// No tile is dirty.
    pub open spec fn clean(self) -> bool {
        forall|c: int, r: int| !#[trigger] self.dirty(c, r)
    }

    pub fn new() -> (d: DirtyTracker)
        ensures
            d.clean(),
    {
        let d = DirtyTracker { bits: [0u64; 8] };
        assert forall|c: int, r: int| !#[trigger] d.dirty(c, r) by {
            if on_screen(c, r) {
                lemma_zero_no_bit(((r * 30 + c) % 64) as u64);
            }
        }
        d
    }

    /// Marks every tile clean.
    pub fn clear(&mut self)
        ensures
            final(self).clean(),
    {
        self.bits = [0u64; 8];
        assert forall|c: int, r: int| !#[trigger] self.dirty(c, r) by {
            if on_screen(c, r) {
                lemma_zero_no_bit(((r * 30 + c) % 64) as u64);
            }
        }
    }

    /// Marks every on-screen tile dirty, and nothing beyond the 510 tiles.
    pub fn mark_full(&mut self)
        ensures
            forall|c: int, r: int| #[trigger] final(self).dirty(c, r) <==> on_screen(c, r),
    {
        proof {
            use_type_invariant(&*self);
        }
        let mut i: usize = 0;
        while i < 8
            invariant
                i <= 8,
                self.bits@[7] < 0x4000000000000000,
                forall|j: int| 0 <= j < i && j < 7 ==> self.bits@[j] == 0xffff_ffff_ffff_ffffu64,
                i == 8 ==> self.bits@[7] == 0x3fff_ffff_ffff_ffffu64,
            decreases 8 - i,
        {
            let base = i * 64;
            let end = if base + 64 < 510 {
                base + 64
            } else {
                510
            };
            let n = end - base;
            if n == 64 {
                self.bits[i] = 0xffff_ffff_ffff_ffffu64;
            } else {
                self.bits[i] = 0x3fff_ffff_ffff_ffffu64;
            }
            i = i + 1;
        }
        assert forall|c: int, r: int| #[trigger] self.dirty(c, r) <==> on_screen(c, r) by {
            if on_screen(c, r) {
                lemma_full_word_bits(((r * 30 + c) % 64) as u64);
            }
        }
    }

    /// True iff no tile is dirty.
    pub fn is_empty(&self) -> (e: bool)
        ensures
            e == self.clean(),
    {
        proof {
            use_type_invariant(self);
        }
        let mut i: usize = 0;
        while i < 8
            invariant
                i <= 8,
                self.bits@[7] < 0x4000000000000000,
                forall|j: int| 0 <= j < i ==> self.bits@[j] == 0,
            decreases 8 - i,
        {
            if self.bits[i] != 0 {
                proof {
                    let w = self.bits@[i as int];
                    assert((w >> 0u64) != 0) by (bit_vector)
                        requires
                            w != 0,
                    ;
                    lemma_nonzero_has_bit(w, 0);
                    let k = choose|k: u64| 0 <= k < 64 && (w >> k) & 1 == 1;
                    if i == 7 {
                        if k >= 62 {
                            lemma_high_bits_clear(w, k);
                        }
                    }
                    let idx = (i * 64 + k) as int;
                    assert(self.dirty(idx % 30, idx / 30));
                }
                return false;
            }
            i = i + 1;
        }
        assert forall|c: int, r: int| !#[trigger] self.dirty(c, r) by {
            if on_screen(c, r) {
                lemma_zero_no_bit(((r * 30 + c) % 64) as u64);
            }
        }
        true
    }

    /// Marks tile `(col, row)` dirty; off-screen tiles are ignored.
    pub fn mark_tile(&mut self, col: usize, row: usize)
        ensures
            forall|c: int, r: int| #[trigger]
                final(self).dirty(c, r) <==> (old(self).dirty(c, r) || (c == col && r == row
                    && on_screen(c, r))),
    {
        proof {
            use_type_invariant(&*self);
        }
        if col >= COLS || row >= ROWS {
            return;
        }
        let idx = row * COLS + col;
        let word = idx / 64;
        let sh = idx % 64;
        let ghost before = *self;
        let w = self.bits[word];
        proof {
            if word == 7 {
                lemma_set_bit_bounded(w, sh as u64);
            }
        }
        self.bits[word] = w | (1u64 << sh);
        assert forall|c: int, r: int| #[trigger]
            self.dirty(c, r) <==> (before.dirty(c, r) || (c == col && r == row && on_screen(c, r))) by {
            if on_screen(c, r) {
                let i2 = r * 30 + c;
                if i2 / 64 == word as int {
                    lemma_set_bit(w, sh as u64, (i2 % 64) as u64);
                }
            }
        }
    }

    /// Whether tile `(col, row)` is dirty; off-screen tiles are clean.
    pub fn is_tile_dirty(&self, col: usize, row: usize) -> (d: bool)
        ensures
            d == self.dirty(col as int, row as int),
    {
        if col >= COLS || row >= ROWS {
            return false;
        }
        let idx = row * COLS + col;
        let w = self.bits[idx / 64];
        let k = (idx % 64) as u64;
        let d = (w >> k) & 1 != 0;
        assert(d == ((w >> k) & 1 == 1)) by (bit_vector)
            requires
                d == ((w >> k) & 1 != 0),
        ;
        d
    }

    /// Marks the tile holding pixel `(x, y)`.
    pub fn mark_pixel(&mut self, x: u16, y: u16)
        ensures
            forall|c: int, r: int| #[trigger]
                final(self).dirty(c, r) <==> (old(self).dirty(c, r) || (c == x / 16 && r == y / 16
                    && on_screen(c, r))),
    {
        self.mark_tile(x as usize / TILE, y as usize / TILE);
    }

    /// Marks every on-screen tile that the rectangle touches.
    pub fn mark_rect(&mut self, x: u16, y: u16, w: u16, h: u16)
        ensures
            forall|c: int, r: int| #[trigger]
                final(self).dirty(c, r) <==> (old(self).dirty(c, r) || rect_tile(
                    x as int,
                    y as int,
                    w as int,
                    h as int,
                    c,
                    r,
                )),
    {
        if w == 0 || h == 0 {
            return;
        }
        let c0 = x as usize / TILE;
        let r0 = y as usize / TILE;
        let c1 = (x as usize + w as usize - 1) / TILE;
        let r1 = (y as usize + h as usize - 1) / TILE;
        let rmax = if r1 < ROWS - 1 {
            r1
        } else {
            ROWS - 1
        };
        let cmax = if c1 < COLS - 1 {
            c1
        } else {
            COLS - 1
        };
        let ghost start = *self;
        let mut r = r0;
        while r <= rmax
            invariant
                r0 <= r,
                r <= rmax + 1 || r == r0,
                w > 0 && h > 0,
                r0 == y / 16,
                c0 == x / 16,
                r1 == (y + h - 1) / 16,
                c1 == (x + w - 1) / 16,
                rmax < ROWS,
                cmax < COLS,
                rmax == (if r1 < ROWS - 1 { r1 } else { (ROWS - 1) as usize }),
                cmax == (if c1 < COLS - 1 { c1 } else { (COLS - 1) as usize }),
                forall|cc: int, rr: int| #[trigger]
                    self.dirty(cc, rr) <==> (start.dirty(cc, rr) || (on_screen(cc, rr) && r0 <= rr
                        < r && c0 <= cc <= cmax)),
            decreases ROWS - r,
        {
            let ghost row_start = *self;
            let mut c = c0;
            while c <= cmax
                invariant
                    c0 <= c,
                    c <= cmax + 1 || c == c0,
                    r <= rmax,
                    rmax < ROWS,
                    cmax < COLS,
                    forall|cc: int, rr: int| #[trigger]
                        self.dirty(cc, rr) <==> (row_start.dirty(cc, rr) || (on_screen(cc, rr)
                            && rr == r && c0 <= cc < c)),
                decreases COLS - c,
            {
                self.mark_tile(c, r);
                c = c + 1;
            }
            r = r + 1;
        }
    }

    /// Words of the bitmap, tile `(col, row)` being bit `(row * 30 + col) % 64`
    /// of word `(row * 30 + col) / 64`.
    pub fn words(&self) -> (b: [u64; 8])
        ensures
            b@[7] < 0x4000000000000000,
            forall|c: int, r: int|
                on_screen(c, r) ==> (#[trigger] self.dirty(c, r) <==> word_bit(
                    b@[(r * 30 + c) / 64],
                    (r * 30 + c) % 64,
                )),
    {
        proof {
            use_type_invariant(self);
        }
        self.bits
    }
}


/// A run of dirty tiles: `(row, first_col, last_col)`.
pub type Run = (usize, usize, usize);

/// `a` comes before `b`: on an earlier row, or on the same row ending at
/// least one clean tile before `b` starts.
pub open spec fn run_before(a: Run, b: Run) -> bool {
    a.0 < b.0 || (a.0 == b.0 && a.2 + 1 < b.1)
}

/// Tile `(c, r)` lies in `run`.
pub open spec fn in_run(run: Run, c: int, r: int) -> bool {
    run.0 == r && run.1 <= c <= run.2
}

impl DirtyTracker {
    /// Runs of row `r` from column `c` on, where `start` is the first column
    /// of a run still open at `c` (or -1 when none is open).
    pub closed spec fn scan(self, r: int, c: int, start: int) -> Seq<Run>
        decreases 30 - c,
    {
        if c >= 30 {
            if start >= 0 {
                seq![(r as usize, start as usize, 29usize)]
            } else {
                seq![]
            }
        } else if self.dirty(c, r) {
            self.scan(r, c + 1, if start >= 0 { start } else { c })
        } else {
            (if start >= 0 {
                seq![(r as usize, start as usize, (c - 1) as usize)]
            } else {
                seq![]
            }) + self.scan(r, c + 1, -1)
        }
    }

    /// Runs of the rows `0..n`, row by row.
    pub closed spec fn runs_upto(self, n: int) -> Seq<Run>
        decreases n,
    {
        if n <= 0 {
            seq![]
        } else {
            self.runs_upto(n - 1) + self.scan(n - 1, 0, -1)
        }
    }

    /// The maximal horizontal runs of dirty tiles, top row first and left to
    /// right within a row.
    pub open spec fn runs_spec(self) -> Seq<Run> {
        self.runs_upto(ROWS as int)
    }

    #[verifier::rlimit(40)]
    proof fn lemma_scan_props(self, r: int, c: int, start: int)
        requires
            0 <= r < 17,
            0 <= c <= 30,
            start == -1 || (0 <= start < c && forall|k: int| start <= k < c ==> self.dirty(k, r)),
            start == -1 ==> (c == 0 || !self.dirty(c - 1, r)),
            start >= 0 ==> (start == 0 || !self.dirty(start - 1, r)),
        ensures
            self.scan(r, c, start).len() <= 31 - c,
            forall|k: int|
                0 <= k < self.scan(r, c, start).len() ==> {
                    let run = #[trigger] self.scan(r, c, start)[k];
                    &&& run.0 == r
                    &&& run.1 <= run.2 < 30
                    &&& (start == -1 ==> c <= run.1)
                    &&& (start >= 0 ==> start <= run.1)
                    &&& forall|t: int| run.1 <= t <= run.2 ==> self.dirty(t, r)
                    &&& (run.1 == 0 || !self.dirty(run.1 - 1, r))
                    &&& (run.2 == 29 || !self.dirty(run.2 + 1, r))
                },
            forall|t: int|
                c <= t < 30 && self.dirty(t, r) ==> exists|k: int|
                    0 <= k < self.scan(r, c, start).len() && #[trigger] self.scan(r, c, start)[k].1
                        <= t <= self.scan(r, c, start)[k].2,
            start >= 0 ==> self.scan(r, c, start).len() > 0 && self.scan(r, c, start)[0].1
                == start && self.scan(r, c, start)[0].2 >= c - 1,
        decreases 30 - c,
    {
        if c >= 30 {
        } else if self.dirty(c, r) {
            let s2 = if start >= 0 {
                start
            } else {
                c
            };
            self.lemma_scan_props(r, c + 1, s2);
            let all = self.scan(r, c + 1, s2);
            assert(self.scan(r, c, start) == all);
            assert forall|t: int|
                c <= t < 30 && self.dirty(t, r) implies exists|k: int|
                0 <= k < all.len() && #[trigger] all[k].1 <= t <= all[k].2 by {
                if t == c {
                    assert(all[0].1 <= t <= all[0].2);
                }
            }
        } else {
            self.lemma_scan_props(r, c + 1, -1);
            let head: Seq<Run> = if start >= 0 {
                seq![(r as usize, start as usize, (c - 1) as usize)]
            } else {
                seq![]
            };
            let tail = self.scan(r, c + 1, -1);
            assert(self.scan(r, c, start) == head + tail);
            assert forall|t: int|
                c <= t < 30 && self.dirty(t, r) implies exists|k: int|
                0 <= k < self.scan(r, c, start).len() && #[trigger] self.scan(r, c, start)[k].1
                    <= t <= self.scan(r, c, start)[k].2 by {
                let k2 = choose|k2: int|
                    0 <= k2 < tail.len() && #[trigger] tail[k2].1 <= t <= tail[k2].2;
                assert(self.scan(r, c, start)[head.len() + k2] == tail[k2]);
            }
        }
    }

    proof fn lemma_runs_upto_props(self, n: int)
        requires
            0 <= n <= 17,
        ensures
            self.runs_upto(n).len() <= 31 * n,
            forall|k: int|
                0 <= k < self.runs_upto(n).len() ==> {
                    let run = #[trigger] self.runs_upto(n)[k];
                    &&& run.0 < n
                    &&& run.1 <= run.2 < 30
                    &&& forall|t: int| run.1 <= t <= run.2 ==> self.dirty(t, run.0 as int)
                    &&& (run.1 == 0 || !self.dirty(run.1 - 1, run.0 as int))
                    &&& (run.2 == 29 || !self.dirty(run.2 + 1, run.0 as int))
                },
            forall|t: int, rr: int|
                0 <= rr < n && self.dirty(t, rr) ==> exists|k: int|
                    0 <= k < self.runs_upto(n).len() && #[trigger] self.runs_upto(n)[k].0 == rr
                        && self.runs_upto(n)[k].1 <= t <= self.runs_upto(n)[k].2,
        decreases n,
    {
        if n > 0 {
            self.lemma_runs_upto_props(n - 1);
            self.lemma_scan_props(n - 1, 0, -1);
            let a = self.runs_upto(n - 1);
            let b = self.scan(n - 1, 0, -1);
            assert(self.runs_upto(n) == a + b);
            assert forall|t: int, rr: int| 0 <= rr < n && self.dirty(t, rr) implies exists|k: int|
                0 <= k < self.runs_upto(n).len() && #[trigger] self.runs_upto(n)[k].0 == rr
                    && self.runs_upto(n)[k].1 <= t <= self.runs_upto(n)[k].2 by {
                if rr < n - 1 {
                    let k = choose|k: int|
                        0 <= k < a.len() && #[trigger] a[k].0 == rr && a[k].1 <= t <= a[k].2;
                    assert(self.runs_upto(n)[k] == a[k]);
                } else {
                    assert(on_screen(t, rr));
                    let k = choose|k: int| 0 <= k < b.len() && #[trigger] b[k].1 <= t <= b[k].2;
                    assert(self.runs_upto(n)[a.len() + k] == b[k]);
                }
            }
        }
    }

    /// Every run lies on the screen and spans at most 30 tiles, and there are
    /// at most 527 of them.
    pub proof fn lemma_runs_bounds(self)
        ensures
            self.runs_spec().len() <= 527,
            forall|k: int|
                0 <= k < self.runs_spec().len() ==> {
                    let run = #[trigger] self.runs_spec()[k];
                    run.0 < 17 && run.1 <= run.2 < 30
                },
    {
        self.lemma_runs_upto_props(17);
    }

    /// The runs cover exactly the dirty tiles, and each run is maximal: the
    /// tiles just left and right of it are clean or off screen.
    pub proof fn lemma_runs_cover(self)
        ensures
            forall|c: int, r: int|
                self.dirty(c, r) <==> exists|k: int|
                    0 <= k < self.runs_spec().len() && #[trigger] self.runs_spec()[k].0 == r
                        && self.runs_spec()[k].1 <= c <= self.runs_spec()[k].2,
            forall|k: int|
                0 <= k < self.runs_spec().len() ==> {
                    let run = #[trigger] self.runs_spec()[k];
                    &&& (run.1 == 0 || !self.dirty(run.1 - 1, run.0 as int))
                    &&& (run.2 == 29 || !self.dirty(run.2 + 1, run.0 as int))
                },
    {
        self.lemma_runs_upto_props(17);
        let runs = self.runs_spec();
        assert forall|c: int, r: int|
            self.dirty(c, r) <==> exists|k: int|
                0 <= k < runs.len() && #[trigger] runs[k].0 == r && runs[k].1 <= c
                    <= runs[k].2 by {
            if exists|k: int|
                0 <= k < runs.len() && #[trigger] runs[k].0 == r && runs[k].1 <= c <= runs[k].2 {
                let k = choose|k: int|
                    0 <= k < runs.len() && #[trigger] runs[k].0 == r && runs[k].1 <= c
                        <= runs[k].2;
                let run = runs[k];
                assert(self.dirty(c, run.0 as int));
            }
            if self.dirty(c, r) {
                assert(on_screen(c, r));
            }
        }
    }

    #[verifier::spinoff_prover]
    proof fn lemma_scan_ordered(self, r: int, c: int, start: int)
        requires
            0 <= r < 17,
            0 <= c <= 30,
            start == -1 || (0 <= start < c && forall|k: int| start <= k < c ==> self.dirty(k, r)),
            start == -1 ==> (c == 0 || !self.dirty(c - 1, r)),
            start >= 0 ==> (start == 0 || !self.dirty(start - 1, r)),
        ensures
            forall|k1: int, k2: int|
                0 <= k1 < k2 < self.scan(r, c, start).len() ==> run_before(
                    #[trigger] self.scan(r, c, start)[k1],
                    #[trigger] self.scan(r, c, start)[k2],
                ),
        decreases 30 - c,
    {
        if c >= 30 {
            assert(self.scan(r, c, start).len() <= 1);
        } else {
            if self.dirty(c, r) {
                let s2 = if start >= 0 {
                    start
                } else {
                    c
                };
                self.lemma_scan_ordered(r, c + 1, s2);
                assert(self.scan(r, c, start) == self.scan(r, c + 1, s2));
            } else {
                self.lemma_scan_ordered(r, c + 1, -1);
                self.lemma_scan_props(r, c + 1, -1);
                let rest = self.scan(r, c + 1, -1);
                let head: Seq<Run> = if start >= 0 {
                    seq![(r as usize, start as usize, (c - 1) as usize)]
                } else {
                    seq![]
                };
                let all = self.scan(r, c, start);
                assert(all == head + rest);
                assert forall|k1: int, k2: int| 0 <= k1 < k2 < all.len() implies run_before(
                    #[trigger] all[k1],
                    #[trigger] all[k2],
                ) by {
                    if k1 < head.len() {
                        assert(all[k1] == head[0]);
                        assert(all[k2] == rest[k2 - head.len()]);
                    } else {
                        assert(all[k1] == rest[k1 - head.len()]);
                        assert(all[k2] == rest[k2 - head.len()]);
                    }
                }
            }
        }
    }

    proof fn lemma_runs_upto_ordered(self, n: int)
        requires
            0 <= n <= 17,
        ensures
            forall|k1: int, k2: int|
                0 <= k1 < k2 < self.runs_upto(n).len() ==> run_before(
                    #[trigger] self.runs_upto(n)[k1],
                    #[trigger] self.runs_upto(n)[k2],
                ),
        decreases n,
    {
        if n > 0 {
            self.lemma_runs_upto_ordered(n - 1);
            self.lemma_runs_upto_props(n - 1);
            self.lemma_scan_ordered(n - 1, 0, -1);
            self.lemma_scan_props(n - 1, 0, -1);
            let a = self.runs_upto(n - 1);
            let b = self.scan(n - 1, 0, -1);
            let all = self.runs_upto(n);
            assert(all == a + b);
            assert forall|k1: int, k2: int| 0 <= k1 < k2 < all.len() implies run_before(
                #[trigger] all[k1],
                #[trigger] all[k2],
            ) by {
                if k2 < a.len() {
                    assert(all[k1] == a[k1] && all[k2] == a[k2]);
                } else if k1 < a.len() {
                    assert(all[k1] == a[k1] && all[k2] == b[k2 - a.len()]);
                } else {
                    assert(all[k1] == b[k1 - a.len()] && all[k2] == b[k2 - a.len()]);
                }
            }
        }
    }

    /// The runs come top row first and left to right within a row, with a
    /// clean tile between two runs of one row; so no run is listed twice
    /// and every dirty tile lies in exactly one run.
    pub proof fn lemma_runs_ordered(self)
        ensures
            forall|k1: int, k2: int|
                0 <= k1 < k2 < self.runs_spec().len() ==> run_before(
                    #[trigger] self.runs_spec()[k1],
                    #[trigger] self.runs_spec()[k2],
                ),
            forall|k1: int, k2: int, c: int, r: int|
                0 <= k1 < self.runs_spec().len() && 0 <= k2 < self.runs_spec().len() && #[trigger] in_run(
                    self.runs_spec()[k1],
                    c,
                    r,
                ) && #[trigger] in_run(self.runs_spec()[k2], c, r) ==> k1 == k2,
    {
        self.lemma_runs_upto_ordered(17);
        self.lemma_runs_upto_props(17);
        let runs = self.runs_spec();
        assert forall|k1: int, k2: int, c: int, r: int|
            0 <= k1 < runs.len() && 0 <= k2 < runs.len() && #[trigger] in_run(runs[k1], c, r)
                && #[trigger] in_run(runs[k2], c, r) implies k1 == k2 by {
            if k1 < k2 {
                assert(run_before(runs[k1], runs[k2]));
            } else if k2 < k1 {
                assert(run_before(runs[k2], runs[k1]));
            }
        }
    }

    /// Horizontal runs of dirty tiles per row, as
    /// `(row, col_start, col_end_inclusive)`.
    pub fn runs(&self) -> (v: Vec<Run>)
        ensures
            v@ == self.runs_spec(),
    {
        let mut runs: Vec<Run> = Vec::new();
        let mut r: usize = 0;
        while r < ROWS
            invariant
                r <= ROWS,
                runs@ == self.runs_upto(r as int),
            decreases ROWS - r,
        {
            let mut c: usize = 0;
            while c < COLS
                invariant
                    r < ROWS,
                    c <= COLS,
                    runs@ + self.scan(r as int, c as int, -1) == self.runs_upto(r + 1),
                decreases COLS - c,
            {
                if self.is_tile_dirty(c, r) {
                    let start = c;
                    assert(self.scan(r as int, c as int, -1) == self.scan(r as int, c as int, start as int));
                    while c < COLS && self.is_tile_dirty(c, r)
                        invariant
                            r < ROWS,
                            start <= c <= COLS,
                            start < COLS,
                            runs@ + self.scan(r as int, c as int, start as int) == self.runs_upto(r + 1),
                        decreases COLS - c,
                    {
                        c = c + 1;
                    }
                    let ghost before = runs@;
                    runs.push((r, start, c - 1));
                    assert(before + self.scan(r as int, c as int, start as int) == runs@ + self.scan(
                        r as int,
                        c as int,
                        -1,
                    ));
                } else {
                    c = c + 1;
                }
            }
            assert(runs@ == runs@ + self.scan(r as int, 30, -1));
            r = r + 1;
        }
        runs
    }
}

impl Default for DirtyTracker {
    fn default() -> (d: DirtyTracker)
        ensures
            d.clean(),
    {
        DirtyTracker::new()
    }
}

} // verus!
