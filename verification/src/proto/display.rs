//! Display command-stream encoder for the two 480x272 RGB565 screens.
//!
//! A display update is one bulk transfer: a 32-byte header carrying the
//! target rectangle, then 8-byte commands (`0x00` blit with pixel payload,
//! `0x01` repeat a pixel pair, `0x03` flush, `0x40` end).
use vstd::prelude::*;
use crate::proto::types::{rgb565, DisplayId, ProtoError, Rgb, DISPLAY_PIXEL_COUNT};

verus! {

/// Size of the header that starts every display command block.
pub const DISPLAY_HEADER_LEN: usize = 32;
/// Size of one command.
pub const DISPLAY_CMD_LEN: usize = 8;

/// Rectangle to refresh, in pixels.
#[derive(Debug, Clone, Copy, PartialEq, Eq, Structural)]
pub struct Rect {
    pub x: u16,
    pub y: u16,
    pub w: u16,
    pub h: u16,
}

impl Rect {
    /// The whole 480x272 screen.
    pub fn full() -> (r: Rect)
        ensures
            r == (Rect { x: 0, y: 0, w: 480, h: 272 }),
    {
        Rect { x: 0, y: 0, w: 480, h: 272 }
    }

    pub fn pixel_count(&self) -> (n: usize)
        ensures
            n == self.w * self.h,
    {
        proof {
            vstd::arithmetic::mul::lemma_mul_upper_bound(
                self.w as int,
                0xffff,
                self.h as int,
                0xffff,
            );
        }
        self.w as usize * self.h as usize
    }
}

/// Big-endian bytes of a 16-bit value.
pub open spec fn be16(v: int) -> Seq<u8> {
    seq![(v / 256) as u8, (v % 256) as u8]
}

/// The 32-byte header of a command block for `display` and `rect`.
pub open spec fn header_bytes(display: DisplayId, rect: Rect) -> Seq<u8> {
    seq![0x84u8, 0, display.spec_wire_id(), 0x60, 0, 0, 0, 0, 0, 0, 0, 0, 0, 0, 0, 0] + be16(
        rect.x as int,
    ) + be16(rect.y as int) + be16(rect.w as int) + be16(rect.h as int) + seq![
        0u8,
        0,
        0,
        0,
        0,
        0,
        0,
        0,
    ]
}

/// Opcode followed by a 24-bit big-endian count.
pub open spec fn op_count(op: u8, count: u32) -> Seq<u8> {
    seq![op, ((count / 65536) % 256) as u8, ((count / 256) % 256) as u8, (count % 256) as u8]
}

/// Blit command announcing `count` pixel pairs of payload.
pub open spec fn blit_cmd(count: u32) -> Seq<u8> {
    op_count(0x00, count) + seq![0u8, 0, 0, 0]
}

/// Repeat command: the pixel pair `pair` repeated `count` times.
pub open spec fn repeat_cmd(count: u32, pair: Seq<u8>) -> Seq<u8> {
    op_count(0x01, count) + pair
}

/// Flush command.
pub open spec fn flush_cmd() -> Seq<u8> {
    seq![0x03u8, 0, 0, 0, 0, 0, 0, 0]
}

/// End-of-transmission command.
pub open spec fn end_cmd() -> Seq<u8> {
    seq![0x40u8, 0, 0, 0, 0, 0, 0, 0]
}

/// A pixel pair of one RGB565 word, big-endian, twice.
pub open spec fn pair_of(word: u16) -> Seq<u8> {
    be16(word as int) + be16(word as int)
}

/// `out` holds the big-endian bytes of `w` at `off`.
pub open spec fn holds_be16(out: Seq<u8>, off: int, w: u16) -> bool {
    out[off] == w / 256 && out[off + 1] == w % 256
}

/// `out` starts with `bytes` and is unchanged after them.
pub open spec fn writes(old_out: Seq<u8>, new_out: Seq<u8>, bytes: Seq<u8>) -> bool {
    &&& new_out.len() == old_out.len()
    &&& new_out.subrange(0, bytes.len() as int) == bytes
    &&& new_out.subrange(bytes.len() as int, new_out.len() as int) == old_out.subrange(
        bytes.len() as int,
        old_out.len() as int,
    )
}

/// Writes the big-endian bytes of `v` at `off`.
fn put_be16(out: &mut [u8], off: usize, v: u16)
    requires
        off + 2 <= old(out)@.len(),
    ensures
        final(out)@ == old(out)@.update(off as int, (v / 256) as u8).update(
            off + 1,
            (v % 256) as u8,
        ),
{
    out[off] = (v / 256) as u8;
    out[off + 1] = (v % 256) as u8;
}

/// Writes the 32-byte frame header for one display update.
pub fn encode_header(display: DisplayId, rect: Rect, out: &mut [u8]) -> (r: Result<(), ProtoError>)
    ensures
        old(out)@.len() < DISPLAY_HEADER_LEN ==> r == Err::<(), ProtoError>(
            ProtoError::OutputTooSmall { need: DISPLAY_HEADER_LEN, have: old(out)@.len() as usize },
        ) && final(out)@ == old(out)@,
        old(out)@.len() >= DISPLAY_HEADER_LEN ==> r == Ok::<(), ProtoError>(()) && writes(
            old(out)@,
            final(out)@,
            header_bytes(display, rect),
        ),
{
    if out.len() < DISPLAY_HEADER_LEN {
        return Err(ProtoError::OutputTooSmall { need: DISPLAY_HEADER_LEN, have: out.len() });
    }
    let mut i: usize = 0;
    while i < DISPLAY_HEADER_LEN
        invariant
            i <= DISPLAY_HEADER_LEN,
            old(out)@.len() >= DISPLAY_HEADER_LEN,
            out@.len() == old(out)@.len(),
            forall|j: int| 0 <= j < i ==> out@[j] == 0,
            forall|j: int| i <= j < out@.len() ==> out@[j] == old(out)@[j],
        decreases DISPLAY_HEADER_LEN - i,
    {
        out[i] = 0;
        i = i + 1;
    }
    out[0] = 0x84;
    out[1] = 0x00;
    out[2] = display.wire_id();
    out[3] = 0x60;
    put_be16(out, 16, rect.x);
    put_be16(out, 18, rect.y);
    put_be16(out, 20, rect.w);
    put_be16(out, 22, rect.h);
    assert(out@.subrange(0, 32) =~= header_bytes(display, rect));
    assert(out@.subrange(32, out@.len() as int) =~= old(out)@.subrange(32, old(out)@.len() as int));
    Ok(())
}

/// Writes `op` and the 24-bit big-endian `count` at the start of `out`.
fn put_op_count(op: u8, count: u32, out: &mut [u8])
    requires
        old(out)@.len() >= DISPLAY_CMD_LEN,
    ensures
        final(out)@.len() == old(out)@.len(),
        final(out)@.subrange(0, 4) == op_count(op, count),
        forall|j: int| 4 <= j < old(out)@.len() ==> #[trigger] final(out)@[j] == old(out)@[j],
{
    out[0] = op;
    let b1 = ((count >> 16) & 0xff) as u8;
    let b2 = ((count >> 8) & 0xff) as u8;
    let b3 = (count & 0xff) as u8;
    assert(b1 == (count / 65536) % 256 && b2 == (count / 256) % 256 && b3 == count % 256)
        by (bit_vector)
        requires
            b1 == ((count >> 16) & 0xff) as u8,
            b2 == ((count >> 8) & 0xff) as u8,
            b3 == (count & 0xff) as u8,
    ;
    out[1] = b1;
    out[2] = b2;
    out[3] = b3;
    assert(out@.subrange(0, 4) =~= op_count(op, count));
}

/// Writes the 8-byte command `cmd` at the start of `out`.
fn put_cmd(cmd: [u8; 8], out: &mut [u8])
    requires
        old(out)@.len() >= DISPLAY_CMD_LEN,
    ensures
        writes(old(out)@, final(out)@, cmd@),
{
    let mut i: usize = 0;
    while i < DISPLAY_CMD_LEN
        invariant
            i <= DISPLAY_CMD_LEN,
            old(out)@.len() >= DISPLAY_CMD_LEN,
            out@.len() == old(out)@.len(),
            forall|j: int| 0 <= j < i ==> out@[j] == cmd@[j],
            forall|j: int| i <= j < out@.len() ==> out@[j] == old(out)@[j],
        decreases DISPLAY_CMD_LEN - i,
    {
        out[i] = cmd[i];
        i = i + 1;
    }
    assert(out@.subrange(0, 8) =~= cmd@);
    assert(out@.subrange(8, out@.len() as int) =~= old(out)@.subrange(8, old(out)@.len() as int));
}

/// Writes a blit command announcing `pair_count` pixel pairs; the pixel
/// payload follows separately. Returns the bytes written.
pub fn encode_blit_cmd(pair_count: u32, out: &mut [u8]) -> (r: Result<usize, ProtoError>)
    ensures
        old(out)@.len() < DISPLAY_CMD_LEN ==> r == Err::<usize, ProtoError>(
            ProtoError::OutputTooSmall { need: DISPLAY_CMD_LEN, have: old(out)@.len() as usize },
        ) && final(out)@ == old(out)@,
        old(out)@.len() >= DISPLAY_CMD_LEN ==> r == Ok::<usize, ProtoError>(DISPLAY_CMD_LEN)
            && writes(old(out)@, final(out)@, blit_cmd(pair_count)),
{
    if out.len() < DISPLAY_CMD_LEN {
        return Err(ProtoError::OutputTooSmall { need: DISPLAY_CMD_LEN, have: out.len() });
    }
    put_op_count(0x00, pair_count, out);
    let ghost mid = out@;
    out[4] = 0;
    out[5] = 0;
    out[6] = 0;
    out[7] = 0;
    assert(out@.subrange(0, 8) =~= blit_cmd(pair_count)) by {
        assert(mid.subrange(0, 4) =~= op_count(0x00, pair_count));
    }
    assert(out@.subrange(8, out@.len() as int) =~= old(out)@.subrange(8, old(out)@.len() as int));
    Ok(DISPLAY_CMD_LEN)
}

/// Writes a repeat command: the pixel pair `pair_be` repeated `count`
/// times. Returns the bytes written.
pub fn encode_repeat_cmd(count: u32, pair_be: [u8; 4], out: &mut [u8]) -> (r: Result<
    usize,
    ProtoError,
>)
    ensures
        old(out)@.len() < DISPLAY_CMD_LEN ==> r == Err::<usize, ProtoError>(
            ProtoError::OutputTooSmall { need: DISPLAY_CMD_LEN, have: old(out)@.len() as usize },
        ) && final(out)@ == old(out)@,
        old(out)@.len() >= DISPLAY_CMD_LEN ==> r == Ok::<usize, ProtoError>(DISPLAY_CMD_LEN)
            && writes(old(out)@, final(out)@, repeat_cmd(count, pair_be@)),
{
    if out.len() < DISPLAY_CMD_LEN {
        return Err(ProtoError::OutputTooSmall { need: DISPLAY_CMD_LEN, have: out.len() });
    }
    put_op_count(0x01, count, out);
    let ghost mid = out@;
    out[4] = pair_be[0];
    out[5] = pair_be[1];
    out[6] = pair_be[2];
    out[7] = pair_be[3];
    assert(out@.subrange(0, 8) =~= repeat_cmd(count, pair_be@)) by {
        assert(mid.subrange(0, 4) =~= op_count(0x01, count));
    }
    assert(out@.subrange(8, out@.len() as int) =~= old(out)@.subrange(8, old(out)@.len() as int));
    Ok(DISPLAY_CMD_LEN)
}

/// Writes the flush command. Returns the bytes written.
pub fn encode_flush_cmd(out: &mut [u8]) -> (r: Result<usize, ProtoError>)
    ensures
        old(out)@.len() < DISPLAY_CMD_LEN ==> r == Err::<usize, ProtoError>(
            ProtoError::OutputTooSmall { need: DISPLAY_CMD_LEN, have: old(out)@.len() as usize },
        ) && final(out)@ == old(out)@,
        old(out)@.len() >= DISPLAY_CMD_LEN ==> r == Ok::<usize, ProtoError>(DISPLAY_CMD_LEN)
            && writes(old(out)@, final(out)@, flush_cmd()),
{
    if out.len() < DISPLAY_CMD_LEN {
        return Err(ProtoError::OutputTooSmall { need: DISPLAY_CMD_LEN, have: out.len() });
    }
    let cmd: [u8; 8] = [0x03, 0, 0, 0, 0, 0, 0, 0];
    put_cmd(cmd, out);
    assert(cmd@ =~= flush_cmd());
    Ok(DISPLAY_CMD_LEN)
}

/// Writes the end-of-transmission command. Returns the bytes written.
pub fn encode_end_cmd(out: &mut [u8]) -> (r: Result<usize, ProtoError>)
    ensures
        old(out)@.len() < DISPLAY_CMD_LEN ==> r == Err::<usize, ProtoError>(
            ProtoError::OutputTooSmall { need: DISPLAY_CMD_LEN, have: old(out)@.len() as usize },
        ) && final(out)@ == old(out)@,
        old(out)@.len() >= DISPLAY_CMD_LEN ==> r == Ok::<usize, ProtoError>(DISPLAY_CMD_LEN)
            && writes(old(out)@, final(out)@, end_cmd()),
{
    if out.len() < DISPLAY_CMD_LEN {
        return Err(ProtoError::OutputTooSmall { need: DISPLAY_CMD_LEN, have: out.len() });
    }
    let cmd: [u8; 8] = [0x40, 0, 0, 0, 0, 0, 0, 0];
    put_cmd(cmd, out);
    assert(cmd@ =~= end_cmd());
    Ok(DISPLAY_CMD_LEN)
}

/// The 56-byte transfer that clears `display` to `color` with a single
/// repeat command.
pub open spec fn solid_frame_bytes(display: DisplayId, color: Rgb) -> Seq<u8> {
    header_bytes(display, Rect { x: 0, y: 0, w: 480, h: 272 }) + repeat_cmd(
        (DISPLAY_PIXEL_COUNT / 2) as u32,
        pair_of(rgb565(color)),
    ) + flush_cmd() + end_cmd()
}

/// Big-endian bytes of an RGB565 word.
fn word_be(w: u16) -> (b: [u8; 2])
    ensures
        b@ == be16(w as int),
{
    let b: [u8; 2] = [(w / 256) as u8, (w % 256) as u8];
    assert(b@ =~= be16(w as int));
    b
}

/// Writes a full-screen clear of `display` to `color` (56 bytes). Returns
/// the number of bytes written.
pub fn encode_solid_frame(display: DisplayId, color: Rgb, out: &mut [u8]) -> (r: Result<
    usize,
    ProtoError,
>)
    ensures
        old(out)@.len() < DISPLAY_HEADER_LEN + 3 * DISPLAY_CMD_LEN ==> r == Err::<
            usize,
            ProtoError,
        >(
            ProtoError::OutputTooSmall {
                need: (DISPLAY_HEADER_LEN + 3 * DISPLAY_CMD_LEN) as usize,
                have: old(out)@.len() as usize,
            },
        ) && final(out)@ == old(out)@,
        old(out)@.len() >= DISPLAY_HEADER_LEN + 3 * DISPLAY_CMD_LEN ==> r == Ok::<
            usize,
            ProtoError,
        >((DISPLAY_HEADER_LEN + 3 * DISPLAY_CMD_LEN) as usize) && writes(
            old(out)@,
            final(out)@,
            solid_frame_bytes(display, color),
        ),
{
    let total = DISPLAY_HEADER_LEN + 3 * DISPLAY_CMD_LEN;
    if out.len() < total {
        return Err(ProtoError::OutputTooSmall { need: total, have: out.len() });
    }
    let ghost o0 = out@;
    let _ = encode_header(display, Rect::full(), out);
    let ghost o1 = out@;
    let pixels = (DISPLAY_PIXEL_COUNT / 2) as u32;
    let word = word_be(color.to_rgb565());
    let pair: [u8; 4] = [word[0], word[1], word[0], word[1]];
    assert(pair@ =~= pair_of(rgb565(color)));
    let (head, rest) = out.split_at_mut(DISPLAY_HEADER_LEN);
    let (c1, rest2) = rest.split_at_mut(DISPLAY_CMD_LEN);
    let (c2, rest3) = rest2.split_at_mut(DISPLAY_CMD_LEN);
    let (c3, tail) = rest3.split_at_mut(DISPLAY_CMD_LEN);
    let _ = encode_repeat_cmd(pixels, pair, c1);
    let _ = encode_flush_cmd(c2);
    let _ = encode_end_cmd(c3);
    assert(out@.len() == o0.len());
    assert(out@.subrange(0, 56) =~= solid_frame_bytes(display, color));
    assert(out@.subrange(56, out@.len() as int) =~= o0.subrange(56, o0.len() as int));
    Ok(total)
}

/// Writes `native` RGB565 words as big-endian bytes into `out`.
pub fn pack_rgb565_be(native: &[u16], out: &mut [u8])
    requires
        old(out)@.len() >= 2 * native@.len(),
    ensures
        final(out)@.len() == old(out)@.len(),
        forall|i: int| 0 <= i < native@.len() ==> holds_be16(final(out)@, 2 * i, #[trigger] native@[i]),
        forall|j: int|
            2 * native@.len() <= j < old(out)@.len() ==> #[trigger] final(out)@[j] == old(out)@[j],
{
    let mut i: usize = 0;
    while i < native.len()
        invariant
            i <= native@.len(),
            old(out)@.len() >= 2 * native@.len(),
            out@.len() == old(out)@.len(),
            forall|k: int| 0 <= k < i ==> holds_be16(out@, 2 * k, #[trigger] native@[k]),
            forall|j: int| 2 * i <= j < out@.len() ==> #[trigger] out@[j] == old(out)@[j],
        decreases native@.len() - i,
    {
        let w = native[i];
        let n = out.len();
        assert(i * 2 + 1 < n);
        out[i * 2] = (w / 256) as u8;
        out[i * 2 + 1] = (w % 256) as u8;
        i = i + 1;
    }
}

} // verus!
