//! Turns a dirty framebuffer into one bulk-transfer payload.
//!
//! Each run of dirty tiles becomes a command block: a header for the run's
//! rectangle, then a single repeat command when every pixel of the run has
//! the same colour, else a blit command with the pixels big-endian. The
//! transfer always ends with flush and end. Encoding clears the tracker.
use vstd::prelude::*;
use crate::proto::types::{DisplayId, DISPLAY_PIXEL_COUNT};
use crate::proto::display::{
    blit_cmd, encode_blit_cmd, encode_end_cmd, encode_flush_cmd, encode_header, encode_repeat_cmd,
    end_cmd, flush_cmd, header_bytes, holds_be16, pack_rgb565_be, pair_of, repeat_cmd, Rect,
    DISPLAY_CMD_LEN, DISPLAY_HEADER_LEN,
};
use crate::display::dirty::{Run, TILE};
use crate::display::framebuffer::Framebuffer;

verus! {

/// Microseconds between frames at `fps` frames a second, at least one
/// frame a second: `1_000_000 / max(fps, 1)`, rounded down.
pub fn frame_period_us(fps: u32) -> (us: u64)
    ensures
        us == 1_000_000int / (if fps == 0 { 1int } else { fps as int }),
{
    let f: u32 = if fps == 0 { 1 } else { fps };
    (1_000_000u32 / f) as u64
}

const SCREEN_W: usize = 480;
const SCREEN_H: usize = 272;

/// Pixels of the rectangle `(x, y, w, h)` of a row-major 480-wide image,
/// row by row.
pub open spec fn rect_pixels(px: Seq<u16>, x: int, y: int, w: int, h: int) -> Seq<u16>
    decreases h,
{
    if h <= 0 {
        seq![]
    } else {
        rect_pixels(px, x, y, w, h - 1) + px.subrange((y + h - 1) * 480 + x, (y + h - 1) * 480 + x + w)
    }
}

/// Big-endian bytes of a sequence of RGB565 words.
pub open spec fn be_words(s: Seq<u16>) -> Seq<u8> {
    Seq::new(
        2 * s.len(),
        |k: int|
            if k % 2 == 0 {
                (s[k / 2] / 256) as u8
            } else {
                (s[k / 2] % 256) as u8
            },
    )
}

/// Every word equals the first.
pub open spec fn all_same(s: Seq<u16>) -> bool {
    forall|i: int| 0 <= i < s.len() ==> #[trigger] s[i] == s[0]
}

/// The command block for the rectangle `(x, y, w, h)`.
pub open spec fn block_bytes(id: DisplayId, px: Seq<u16>, x: int, y: int, w: int, h: int) -> Seq<u8> {
    let native = rect_pixels(px, x, y, w, h);
    header_bytes(id, Rect { x: x as u16, y: y as u16, w: w as u16, h: h as u16 }) + if all_same(
        native,
    ) {
        repeat_cmd((native.len() / 2) as u32, pair_of(native[0]))
    } else {
        blit_cmd((native.len() / 2) as u32) + be_words(native)
    }
}

pub open spec fn min(a: int, b: int) -> int {
    if a < b {
        a
    } else {
        b
    }
}

/// The command block for one run of dirty tiles.
pub open spec fn run_bytes(id: DisplayId, px: Seq<u16>, run: Run) -> Seq<u8> {
    let y = run.0 * 16;
    let x = run.1 * 16;
    let h = min(16, 272 - y);
    let w = min((run.2 - run.1 + 1) * 16, 480 - x);
    block_bytes(id, px, x, y, w, h)
}

/// The command blocks of `runs`, in order.
pub open spec fn runs_bytes(id: DisplayId, px: Seq<u16>, runs: Seq<Run>) -> Seq<u8>
    decreases runs.len(),
{
    if runs.len() == 0 {
        seq![]
    } else {
        runs_bytes(id, px, runs.drop_last()) + run_bytes(id, px, runs.last())
    }
}

/// The whole transfer for a screen `px` whose dirty runs are `runs`.
pub open spec fn frame_bytes(id: DisplayId, px: Seq<u16>, runs: Seq<Run>) -> Seq<u8> {
    runs_bytes(id, px, runs) + flush_cmd() + end_cmd()
}

/// Encodes every dirty run of `fb` into one transfer and clears the tracker.
pub fn encode_frame(id: DisplayId, fb: &mut Framebuffer) -> (out: Vec<u8>)
    requires
        old(fb).wf(),
    ensures
        out@ == frame_bytes(id, old(fb).px(), old(fb).tiles().runs_spec()),
        final(fb).px() == old(fb).px(),
        final(fb).wf(),
        final(fb).tiles().clean(),
{
    let runs = fb.dirty_runs();
    proof {
        fb.tiles().lemma_runs_bounds();
        fb.lemma_wf_len();
    }
    let mut out = Vec::<u8>::with_capacity(estimate_capacity(&runs));
    let mut i: usize = 0;
    while i < runs.len()
        invariant
            i <= runs@.len(),
            runs@ == fb.tiles().runs_spec(),
            fb.wf(),
            fb.px().len() == DISPLAY_PIXEL_COUNT,
            forall|k: int|
                0 <= k < runs@.len() ==> {
                    let run = #[trigger] runs@[k];
                    run.0 < 17 && run.1 <= run.2 < 30
                },
            out@ == runs_bytes(id, fb.px(), runs@.take(i as int)),
        decreases runs@.len() - i,
    {
        let (row, c0, c1) = runs[i];
        let y = row * TILE;
        let x = c0 * TILE;
        let h = if TILE < SCREEN_H - y {
            TILE
        } else {
            SCREEN_H - y
        };
        let w = if (c1 - c0 + 1) * TILE < SCREEN_W - x {
            (c1 - c0 + 1) * TILE
        } else {
            SCREEN_W - x
        };
        encode_run(id, fb, x, y, w, h, &mut out);
        assert(runs@.take(i + 1).drop_last() == runs@.take(i as int));
        i = i + 1;
    }
    assert(runs@.take(runs@.len() as int) == runs@);
    let mut flush = [0u8; 8];
    let mut end = [0u8; 8];
    let _ = encode_flush_cmd(&mut flush);
    let _ = encode_end_cmd(&mut end);
    assert(flush@ =~= flush_cmd());
    assert(end@ =~= end_cmd());
    out.extend_from_slice(&flush);
    out.extend_from_slice(&end);
    fb.mark_encoded();
    out
}

proof fn lemma_rect_pixels_len(px: Seq<u16>, x: int, y: int, w: int, h: int)
    requires
        0 <= x,
        0 < w,
        x + w <= 480,
        0 <= y,
        0 <= h,
        y + h <= 272,
        px.len() == DISPLAY_PIXEL_COUNT,
    ensures
        rect_pixels(px, x, y, w, h).len() == w * h,
    decreases h,
{
    if h > 0 {
        lemma_rect_pixels_len(px, x, y, w, h - 1);
        assert(w * (h - 1) + w == w * h) by (nonlinear_arith);
        let lo = (y + h - 1) * 480 + x;
        assert(0 <= lo && lo + w <= DISPLAY_PIXEL_COUNT) by (nonlinear_arith)
            requires
                y + h <= 272,
                x + w <= 480,
                0 <= x,
                0 <= y,
                0 < h,
                lo == (y + h - 1) * 480 + x,
        ;
        assert(px.subrange(lo, lo + w).len() == w);
        assert(rect_pixels(px, x, y, w, h) == rect_pixels(px, x, y, w, h - 1) + px.subrange(
            lo,
            lo + w,
        ));
    } else {
        assert(w * h == 0) by (nonlinear_arith)
            requires
                h == 0,
        ;
    }
}

/// Appends the command block for the rectangle `(x, y, w, h)` to `out`.
fn encode_run(
    id: DisplayId,
    fb: &Framebuffer,
    x: usize,
    y: usize,
    w: usize,
    h: usize,
    out: &mut Vec<u8>,
)
    requires
        fb.wf(),
        0 < w,
        x + w <= SCREEN_W,
        0 < h <= 16,
        y + h <= SCREEN_H,
    ensures
        final(out)@ == old(out)@ + block_bytes(id, fb.px(), x as int, y as int, w as int, h as int),
{
    proof {
        fb.lemma_wf_len();
    }
    let mut header = [0u8; 32];
    let _ = encode_header(
        id,
        Rect { x: x as u16, y: y as u16, w: w as u16, h: h as u16 },
        &mut header,
    );
    assert(header@ =~= header_bytes(
        id,
        Rect { x: x as u16, y: y as u16, w: w as u16, h: h as u16 },
    ));
    out.extend_from_slice(&header);
    let pixels = fb.pixels();
    assert(w * h <= 480 * 16) by (nonlinear_arith)
        requires
            w <= 480,
            h <= 16,
    ;
    let mut native: Vec<u16> = Vec::with_capacity(w * h);
    let mut yy = y;
    while yy < y + h
        invariant
            y <= yy <= y + h,
            y + h <= SCREEN_H,
            x + w <= SCREEN_W,
            0 < w,
            pixels@ == fb.px(),
            pixels@.len() == DISPLAY_PIXEL_COUNT,
            native@ == rect_pixels(pixels@, x as int, y as int, w as int, yy - y),
        decreases y + h - yy,
    {
        assert(yy * 480 + x + w <= DISPLAY_PIXEL_COUNT) by (nonlinear_arith)
            requires
                yy < 272,
                x + w <= 480,
        ;
        let row = &pixels[yy * SCREEN_W + x..yy * SCREEN_W + x + w];
        native.extend_from_slice(row);
        yy = yy + 1;
    }
    proof {
        lemma_rect_pixels_len(pixels@, x as int, y as int, w as int, h as int);
        assert(w * h <= 480 * 16) by (nonlinear_arith)
            requires
                w <= 480,
                h <= 16,
        ;
    }
    let first = native[0];
    let mut solid = true;
    let mut k: usize = 0;
    while k < native.len()
        invariant
            k <= native@.len(),
            native@.len() > 0,
            first == native@[0],
            solid == (forall|j: int| 0 <= j < k ==> #[trigger] native@[j] == first),
        decreases native@.len() - k,
    {
        if native[k] != first {
            solid = false;
        }
        k = k + 1;
    }
    let pairs = (native.len() / 2) as u32;
    if solid {
        let be: [u8; 2] = [(first / 256) as u8, (first % 256) as u8];
        let pair: [u8; 4] = [be[0], be[1], be[0], be[1]];
        assert(pair@ =~= pair_of(first));
        let mut cmd = [0u8; 8];
        let _ = encode_repeat_cmd(pairs, pair, &mut cmd);
        assert(cmd@ =~= repeat_cmd(pairs, pair@));
        out.extend_from_slice(&cmd);
        return;
    }
    let mut cmd = [0u8; 8];
    let _ = encode_blit_cmd(pairs, &mut cmd);
    assert(cmd@ =~= blit_cmd(pairs));
    out.extend_from_slice(&cmd);
    let pay_len = native.len() * 2;
    let mut payload: Vec<u8> = vec![0u8; pay_len];
    pack_rgb565_be(native.as_slice(), payload.as_mut_slice());
    assert(payload@ =~= be_words(native@)) by {
        assert forall|j: int| 0 <= j < payload@.len() implies payload@[j] == be_words(native@)[j] by {
            let i2 = j / 2;
            assert(holds_be16(payload@, 2 * i2, native@[i2]));
        }
    }
    out.extend_from_slice(&payload);
}

/// Capacity that one transfer for `runs` needs.
pub open spec fn capacity_spec(runs: Seq<Run>) -> int
    decreases runs.len(),
{
    if runs.len() == 0 {
        2 * DISPLAY_CMD_LEN
    } else {
        capacity_spec(runs.drop_last()) + DISPLAY_HEADER_LEN + DISPLAY_CMD_LEN + (runs.last().2
            - runs.last().1 + 1) * 512
    }
}

fn estimate_capacity(runs: &[Run]) -> (n: usize)
    requires
        runs@.len() <= 527,
        forall|k: int|
            0 <= k < runs@.len() ==> {
                let run = #[trigger] runs@[k];
                run.1 <= run.2 < 30
            },
    ensures
        n == capacity_spec(runs@),
{
    let mut n = 0usize;
    let mut i: usize = 0;
    while i < runs.len()
        invariant
            i <= runs@.len(),
            runs@.len() <= 527,
            forall|k: int|
                0 <= k < runs@.len() ==> {
                    let run = #[trigger] runs@[k];
                    run.1 <= run.2 < 30
                },
            n + 2 * DISPLAY_CMD_LEN == capacity_spec(runs@.take(i as int)),
            n <= i * 15400,
        decreases runs@.len() - i,
    {
        let (_, c0, c1) = runs[i];
        let tiles = c1 - c0 + 1;
        let pixels = tiles * TILE * TILE;
        n = n + DISPLAY_HEADER_LEN + DISPLAY_CMD_LEN + pixels * 2;
        assert(runs@.take(i + 1).drop_last() == runs@.take(i as int));
        i = i + 1;
    }
    assert(runs@.take(runs@.len() as int) == runs@);
    n + DISPLAY_CMD_LEN * 2
}

/// Pixel `(i, j)` of a row-major 480-wide screen.
pub open spec fn screen_px(px: Seq<u16>, i: int, j: int) -> u16 {
    px[j * 480 + i]
}

/// Every pixel of the `w`×`h` rectangle at `(x, y)` holds `word`.
pub open spec fn rect_solid(px: Seq<u16>, x: int, y: int, w: int, h: int, word: u16) -> bool {
    forall|i: int, j: int| 0 <= i < w && 0 <= j < h ==> #[trigger] screen_px(px, x + i, y + j) == word
}

proof fn lemma_rect_pixels_index(px: Seq<u16>, x: int, y: int, w: int, h: int)
    requires
        0 <= x,
        0 <= y,
        0 < w,
        0 <= h,
        x + w <= 480,
        (y + h) * 480 <= px.len(),
    ensures
        rect_pixels(px, x, y, w, h).len() == w * h,
        forall|i: int, j: int|
            0 <= i < w && 0 <= j < h ==> rect_pixels(px, x, y, w, h)[j * w + i] == #[trigger] screen_px(
                px,
                x + i,
                y + j,
            ),
    decreases h,
{
    if h > 0 {
        assert((y + h - 1) * 480 <= px.len()) by (nonlinear_arith)
            requires
                (y + h) * 480 <= px.len(),
        ;
        lemma_rect_pixels_index(px, x, y, w, h - 1);
        let a = rect_pixels(px, x, y, w, h - 1);
        let row = px.subrange((y + h - 1) * 480 + x, (y + h - 1) * 480 + x + w);
        assert((y + h - 1) * 480 + x + w <= px.len()) by (nonlinear_arith)
            requires
                (y + h) * 480 <= px.len(),
                x + w <= 480,
        ;
        assert(rect_pixels(px, x, y, w, h) == a + row);
        assert(w * (h - 1) + w == w * h) by (nonlinear_arith);
        assert forall|i: int, j: int| 0 <= i < w && 0 <= j < h implies rect_pixels(px, x, y, w, h)[j
            * w + i] == #[trigger] screen_px(px, x + i, y + j) by {
            if j < h - 1 {
                assert(j * w + i < a.len()) by (nonlinear_arith)
                    requires
                        0 <= i < w,
                        0 <= j < h - 1,
                        a.len() == w * (h - 1),
                ;
                assert((a + row)[j * w + i] == a[j * w + i]);
            } else {
                assert(j * w + i == a.len() + i) by (nonlinear_arith)
                    requires
                        j == h - 1,
                        a.len() == w * (h - 1),
                ;
                assert((a + row)[j * w + i] == row[i]);
                assert(row[i] == px[(y + h - 1) * 480 + x + i]);
                assert((y + j) * 480 + (x + i) == (y + h - 1) * 480 + x + i);
            }
        }
    }
}

/// A run's command block sends its pixels: it opens with the header for
/// its rectangle; it is a repeat command with the first pixel's word only
/// when every pixel of the rectangle holds that word; otherwise it is a
/// blit command followed by every pixel of the rectangle, row by row, each
/// big-endian.
pub proof fn block_sends_its_pixels(id: DisplayId, px: Seq<u16>, x: int, y: int, w: int, h: int)
    requires
        0 <= x,
        0 <= y,
        0 < w,
        0 < h,
        x + w <= 480,
        y + h <= 272,
        px.len() == DISPLAY_PIXEL_COUNT,
    ensures
        block_bytes(id, px, x, y, w, h).subrange(0, 32) == header_bytes(
            id,
            (Rect { x: x as u16, y: y as u16, w: w as u16, h: h as u16 }),
        ),
        block_bytes(id, px, x, y, w, h)[32] == 0x01 ==> rect_solid(px, x, y, w, h, screen_px(px, x, y)),
        rect_solid(px, x, y, w, h, screen_px(px, x, y)) ==> {
            let b = block_bytes(id, px, x, y, w, h);
            &&& b.len() == 40
            &&& b[32] == 0x01
            &&& b.subrange(36, 40) == pair_of(screen_px(px, x, y))
        },
        !rect_solid(px, x, y, w, h, screen_px(px, x, y)) ==> {
            let b = block_bytes(id, px, x, y, w, h);
            &&& b[32] == 0x00
            &&& b.len() == 40 + 2 * (w * h)
            &&& forall|i: int, j: int|
                0 <= i < w && 0 <= j < h ==> b[40 + 2 * (j * w + i)] == #[trigger] screen_px(
                    px,
                    x + i,
                    y + j,
                ) / 256 && b[41 + 2 * (j * w + i)] == screen_px(px, x + i, y + j) % 256
        },
{
    assert((y + h) * 480 <= px.len()) by (nonlinear_arith)
        requires
            y + h <= 272,
            px.len() == 130560,
    ;
    lemma_rect_pixels_index(px, x, y, w, h);
    let native = rect_pixels(px, x, y, w, h);
    let hd = header_bytes(id, Rect { x: x as u16, y: y as u16, w: w as u16, h: h as u16 });
    assert(hd.len() == 32);
    assert(0 * w + 0 == 0);
    assert(native[0] == screen_px(px, x + 0, y + 0));
    assert(w * h > 0) by (nonlinear_arith)
        requires
            w > 0,
            h > 0,
    ;
    if all_same(native) {
        assert forall|i: int, j: int| 0 <= i < w && 0 <= j < h implies #[trigger] screen_px(
            px,
            x + i,
            y + j,
        ) == screen_px(px, x, y) by {
            assert(0 <= j * w + i < w * h) by (nonlinear_arith)
                requires
                    0 <= i < w,
                    0 <= j < h,
            ;
            assert(native[j * w + i] == native[0]);
        }
        let b = block_bytes(id, px, x, y, w, h);
        assert(b == hd + repeat_cmd((native.len() / 2) as u32, pair_of(native[0])));
        assert(b.subrange(0, 32) =~= hd);
        assert(b.subrange(36, 40) =~= pair_of(screen_px(px, x, y)));
    } else {
        let k = choose|k: int| 0 <= k < native.len() && #[trigger] native[k] != native[0];
        let j = k / w;
        let i = k % w;
        assert(0 <= i < w && 0 <= j < h && k == j * w + i) by (nonlinear_arith)
            requires
                0 <= k < w * h,
                w > 0,
                j == k / w,
                i == k % w,
        ;
        assert(screen_px(px, x + i, y + j) != screen_px(px, x, y));
        let b = block_bytes(id, px, x, y, w, h);
        let bw = be_words(native);
        assert(b == hd + blit_cmd((native.len() / 2) as u32) + bw);
        assert(b.subrange(0, 32) =~= hd);
        assert forall|i: int, j: int| 0 <= i < w && 0 <= j < h implies b[40 + 2 * (j * w + i)]
            == #[trigger] screen_px(px, x + i, y + j) / 256 && b[41 + 2 * (j * w + i)] == screen_px(
            px,
            x + i,
            y + j,
        ) % 256 by {
            let q = j * w + i;
            assert(0 <= q < w * h) by (nonlinear_arith)
                requires
                    0 <= i < w,
                    0 <= j < h,
                    q == j * w + i,
            ;
            assert(b[40 + 2 * q] == bw[2 * q]);
            assert(b[41 + 2 * q] == bw[2 * q + 1]);
            assert((2 * q) / 2 == q && (2 * q + 1) / 2 == q && (2 * q) % 2 == 0 && (2 * q + 1) % 2 == 1);
        }
    }
}

} // verus!
