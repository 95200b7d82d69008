//! Parsers for the HID IN reports of the Maschine Mk3.
//!
//! Report `0x01` carries the button bitmask, the eight macro encoders, the
//! master encoder, the touch strip and three analog knobs; report `0x02`
//! carries pad pressure samples as 3-byte `(pad, lo, hi)` entries.
use vstd::prelude::*;
use crate::proto::types::{
    ProtoError, MACRO_ENCODER_COUNT, PAD_COUNT, REPORT_IN_CONTROLS, REPORT_IN_PADS,
};

verus! {

/// Minimum length of a controls report: id, 8 button bytes, 9 encoder words,
/// the touch strip pair and three analog words.
pub const CONTROLS_MIN_LEN: usize = 37;

/// Little-endian 16-bit value at `off`.
pub open spec fn le16(buf: Seq<u8>, off: int) -> int {
    buf[off] + 256 * buf[off + 1]
}

/// Little-endian 64-bit value of the eight bytes at `off`.
pub open spec fn le64(buf: Seq<u8>, off: int) -> int {
    buf[off] + 0x100 * buf[off + 1] + 0x10000 * buf[off + 2] + 0x1000000 * buf[off + 3]
        + 0x100000000 * buf[off + 4] + 0x10000000000 * buf[off + 5] + 0x1000000000000 * buf[off
        + 6] + 0x100000000000000 * buf[off + 7]
}

/// A 10-bit analog value: the low ten bits of the little-endian word at `off`.
pub open spec fn analog10(buf: Seq<u8>, off: int) -> int {
    le16(buf, off) % 1024
}

/// Whether bit `i` of `x` is set.
pub open spec fn bit(x: u64, i: int) -> bool {
    (x >> (i as u64)) & 1 == 1
}

/// Decoded contents of one controls report (`0x01`).
#[derive(Debug, Clone, Copy, PartialEq, Eq)]
pub struct ControlsReport {
    /// Raw 64-bit button bitmask.
    pub buttons: u64,
    /// Absolute 10-bit positions of the macro encoders.
    pub macros: [u16; MACRO_ENCODER_COUNT],
    /// Absolute 10-bit position of the master encoder.
    pub master: u16,
    /// Touch strip `(position, pressure)`; `None` when untouched.
    pub touch_strip: Option<(u16, u16)>,
    pub mic_gain: u16,
    pub headphones: u16,
    pub master_vol: u16,
}

/// `c` is what the controls report in `buf` says.
pub open spec fn decodes_controls(buf: Seq<u8>, c: ControlsReport) -> bool {
    &&& c.buttons == le64(buf, 1)
    &&& forall|i: int| 0 <= i < 8 ==> #[trigger] c.macros@[i] == analog10(buf, 9 + 2 * i)
    &&& c.master == analog10(buf, 25)
    &&& c.touch_strip == (if analog10(buf, 29) == 0 {
        None
    } else {
        Some((analog10(buf, 27) as u16, analog10(buf, 29) as u16))
    })
    &&& c.mic_gain == analog10(buf, 31)
    &&& c.headphones == analog10(buf, 33)
    &&& c.master_vol == analog10(buf, 35)
}

/// The button changes from `prev` to `now` among bits `0..n`, lowest bit
/// first, each as `(bit, now_pressed)`.
pub open spec fn diff_upto(now: u64, prev: u64, n: int) -> Seq<(u8, bool)>
    decreases n,
{
    if n <= 0 {
        seq![]
    } else {
        diff_upto(now, prev, n - 1) + if bit(now, n - 1) != bit(prev, n - 1) {
            seq![((n - 1) as u8, bit(now, n - 1))]
        } else {
            seq![]
        }
    }
}

/// Shortest signed rotation from `prev` to `now` on the 10-bit encoder ring.
pub open spec fn encoder_delta_spec(prev: u16, now: u16) -> int {
    let raw = (now - prev) % 1024;
    if raw > 512 {
        raw - 1024
    } else {
        raw
    }
}

proof fn lemma_mask_bit(x: u64, i: u64)
    requires
        i < 64,
    ensures
        (x & (1u64 << i) != 0) == ((x >> i) & 1 == 1),
{
    assert((x & (1u64 << i) != 0) == ((x >> i) & 1 == 1)) by (bit_vector)
        requires
            i < 64,
    ;
}

proof fn lemma_xor_bit(a: u64, b: u64, i: u64)
    requires
        i < 64,
    ensures
        (((a ^ b) >> i) & 1 == 1) == (((a >> i) & 1 == 1) != ((b >> i) & 1 == 1)),
{
    assert((((a ^ b) >> i) & 1 == 1) == (((a >> i) & 1 == 1) != ((b >> i) & 1 == 1)))
        by (bit_vector)
        requires
            i < 64,
    ;
}

impl ControlsReport {
    /// Every button whose state differs between `prev` and this report, as
    /// `(bit_index, now_pressed)` in ascending bit order.
    pub fn buttons_diff(&self, prev: u64) -> (d: Vec<(u8, bool)>)
        ensures
            d@ == diff_upto(self.buttons, prev, 64),
    {
        let changed = self.buttons ^ prev;
        let now = self.buttons;
        let mut out: Vec<(u8, bool)> = Vec::new();
        let mut i: u8 = 0;
        while i < 64
            invariant
                i <= 64,
                changed == now ^ prev,
                now == self.buttons,
                out@ == diff_upto(now, prev, i as int),
            decreases 64 - i,
        {
            let mask = 1u64 << i;
            proof {
                lemma_mask_bit(changed, i as u64);
                lemma_mask_bit(now, i as u64);
                lemma_xor_bit(now, prev, i as u64);
            }
            if changed & mask != 0 {
                out.push((i, now & mask != 0));
            }
            i = i + 1;
        }
        out
    }

    /// Encoder rotation in ticks, taking the shortest way around the
    /// 10-bit wrap. Positive is clockwise.
    pub fn encoder_delta(prev: u16, now: u16) -> (d: i16)
        ensures
            d == encoder_delta_spec(prev, now),
    {
        let x: i32 = now as i32 - prev as i32;
        let raw: i32 = x & 0x3ff;
        assert(raw == x % 1024) by (bit_vector)
            requires
                raw == x & 0x3ff,
        ;
        let delta: i32 = if raw > 0x200 {
            raw - 0x400
        } else {
            raw
        };
        delta as i16
    }
}

/// Encoder deltas take the short way round the 10-bit ring: the delta lies in
/// `-511..=512`, adding it to the previous position lands on the new one
/// modulo 1024, and it is zero exactly when the positions agree modulo 1024.
pub proof fn encoder_delta_wraps(prev: u16, now: u16)
    ensures
        -511 <= encoder_delta_spec(prev, now) <= 512,
        (prev + encoder_delta_spec(prev, now)) % 1024 == now % 1024,
        (encoder_delta_spec(prev, now) == 0) == (prev % 1024 == now % 1024),
{
    let raw = (now - prev) % 1024;
    assert(0 <= raw < 1024);
    assert((prev + raw) % 1024 == now % 1024) by (nonlinear_arith)
        requires
            raw == (now - prev) % 1024,
    ;
    assert((prev + raw - 1024) % 1024 == (prev + raw) % 1024) by (nonlinear_arith);
    assert((raw == 0) == (prev % 1024 == now % 1024)) by (nonlinear_arith)
        requires
            raw == (now - prev) % 1024,
    ;
}

/// Turning back undoes a turn: the delta from `now` to `prev` is the
/// negated delta from `prev` to `now`, except for a half turn (512 ticks),
/// which both directions report as `+512`.
pub proof fn encoder_delta_reverses(prev: u16, now: u16)
    requires
        encoder_delta_spec(prev, now) != 512,
    ensures
        encoder_delta_spec(now, prev) == -encoder_delta_spec(prev, now),
{
    let a = (now - prev) % 1024;
    let b = (prev - now) % 1024;
    assert(a == 0 ==> b == 0) by (nonlinear_arith)
        requires
            a == (now - prev) % 1024,
            b == (prev - now) % 1024,
    ;
    assert(a != 0 ==> b == 1024 - a) by (nonlinear_arith)
        requires
            a == (now - prev) % 1024,
            b == (prev - now) % 1024,
    ;
}

proof fn lemma_diff_upto(now: u64, prev: u64, n: int)
    requires
        0 <= n <= 64,
    ensures
        forall|j: int|
            0 <= j < diff_upto(now, prev, n).len() ==> {
                let e = #[trigger] diff_upto(now, prev, n)[j];
                &&& 0 <= e.0 < n
                &&& bit(now, e.0 as int) != bit(prev, e.0 as int)
                &&& e.1 == bit(now, e.0 as int)
            },
        forall|j: int, k: int|
            0 <= j < k < diff_upto(now, prev, n).len() ==> #[trigger] diff_upto(now, prev, n)[j].0
                < #[trigger] diff_upto(now, prev, n)[k].0,
        forall|i: int|
            0 <= i < n && bit(now, i) != bit(prev, i) ==> exists|j: int|
                0 <= j < diff_upto(now, prev, n).len() && #[trigger] diff_upto(now, prev, n)[j].0
                    == i,
    decreases n,
{
    if n > 0 {
        lemma_diff_upto(now, prev, n - 1);
        let d0 = diff_upto(now, prev, n - 1);
        let d = diff_upto(now, prev, n);
        if bit(now, n - 1) != bit(prev, n - 1) {
            assert(d == d0.push(((n - 1) as u8, bit(now, n - 1))));
            assert(d[d0.len() as int].0 == n - 1);
        } else {
            assert(d =~= d0);
        }
        assert forall|i: int| 0 <= i < n && bit(now, i) != bit(prev, i) implies exists|j: int|
            0 <= j < d.len() && #[trigger] d[j].0 == i by {
            if i < n - 1 {
                let j = choose|j: int| 0 <= j < d0.len() && #[trigger] d0[j].0 == i;
                assert(d[j] == d0[j]);
            } else {
                assert(d[d0.len() as int].0 == i);
            }
        }
    }
}

/// `buttons_diff` reports exactly the changed buttons: every entry names a
/// bit that differs between the two masks together with its new state, the
/// bits come in strictly ascending order (so none twice), and every bit
/// that differs is reported.
pub proof fn buttons_diff_exact(now: u64, prev: u64)
    ensures
        forall|j: int|
            0 <= j < diff_upto(now, prev, 64).len() ==> {
                let e = #[trigger] diff_upto(now, prev, 64)[j];
                &&& bit(now, e.0 as int) != bit(prev, e.0 as int)
                &&& e.1 == bit(now, e.0 as int)
            },
        forall|j: int, k: int|
            0 <= j < k < diff_upto(now, prev, 64).len() ==> #[trigger] diff_upto(now, prev, 64)[j].0
                < #[trigger] diff_upto(now, prev, 64)[k].0,
        forall|i: int|
            0 <= i < 64 && bit(now, i) != bit(prev, i) ==> exists|j: int|
                0 <= j < diff_upto(now, prev, 64).len() && #[trigger] diff_upto(now, prev, 64)[j].0
                    == i,
{
    lemma_diff_upto(now, prev, 64);
}

impl Default for ControlsReport {
    fn default() -> (c: ControlsReport)
        ensures
            c.buttons == 0,
            forall|i: int| 0 <= i < 8 ==> #[trigger] c.macros@[i] == 0,
            c.master == 0,
            c.touch_strip is None,
            c.mic_gain == 0,
            c.headphones == 0,
            c.master_vol == 0,
    {
        ControlsReport {
            buttons: 0,
            macros: [0u16; MACRO_ENCODER_COUNT],
            master: 0,
            touch_strip: None,
            mic_gain: 0,
            headphones: 0,
            master_vol: 0,
        }
    }
}

/// One pad sample from a `0x02` report.
#[derive(Debug, Clone, Copy, PartialEq, Eq, Structural)]
pub struct PadSample {
    pub pad: u8,
    /// Raw pressure; 0 at rest, about 0x4000..=0x4FFD when pressed.
    pub pressure: u16,
}

/// Pad report contents, in the order the entries appear.
#[derive(Debug, Clone, PartialEq, Eq)]
pub struct PadsReport {
    pub samples: Vec<PadSample>,
}

/// Either kind of report, tagged by its first byte.
#[derive(Debug, Clone, PartialEq, Eq)]
pub enum InReport {
    Controls(ControlsReport),
    Pads(PadsReport),
}

/// Result of reading the first `n` 3-byte pad entries after the report id:
/// empty entries `(0, 0, 0)` are skipped, a pad index of 16 or more is an
/// error, every other entry becomes a sample.
pub open spec fn pads_prefix(buf: Seq<u8>, n: int) -> Result<Seq<PadSample>, ProtoError>
    decreases n,
{
    if n <= 0 {
        Ok(seq![])
    } else {
        match pads_prefix(buf, n - 1) {
            Err(e) => Err(e),
            Ok(s) => {
                let off = 1 + 3 * (n - 1);
                let pad = buf[off];
                let pressure = le16(buf, off + 1);
                if pad == 0 && pressure == 0 {
                    Ok(s)
                } else if pad >= 16 {
                    Err(ProtoError::BadPad(pad))
                } else {
                    Ok(s.push(PadSample { pad, pressure: pressure as u16 }))
                }
            },
        }
    }
}

/// Number of whole pad entries in a pads report of length `len`.
pub open spec fn pad_entries(len: int) -> int {
    (len - 1) / 3
}

/// What `parse` returns for `buf`.
pub open spec fn parse_spec(buf: Seq<u8>, r: Result<InReport, ProtoError>) -> bool {
    if buf.len() == 0 {
        r == Err::<InReport, ProtoError>(ProtoError::Short { need: 1, have: 0 })
    } else if buf[0] == REPORT_IN_CONTROLS {
        if buf.len() < CONTROLS_MIN_LEN {
            r == Err::<InReport, ProtoError>(
                ProtoError::Short { need: CONTROLS_MIN_LEN, have: buf.len() as usize },
            )
        } else {
            r matches Ok(InReport::Controls(c)) && decodes_controls(buf, c)
        }
    } else if buf[0] == REPORT_IN_PADS {
        match pads_prefix(buf, pad_entries(buf.len() as int)) {
            Ok(s) => r matches Ok(InReport::Pads(p)) && p.samples@ == s,
            Err(e) => r == Err::<InReport, ProtoError>(e),
        }
    } else {
        r == Err::<InReport, ProtoError>(ProtoError::UnknownReport(buf[0]))
    }
}

/// Parses one raw HID IN transfer; byte 0 is the report id.
pub fn parse(buf: &[u8]) -> (r: Result<InReport, ProtoError>)
    ensures
        parse_spec(buf@, r),
{
    if buf.len() == 0 {
        return Err(ProtoError::Short { need: 1, have: 0 });
    }
    if buf[0] == REPORT_IN_CONTROLS {
        match parse_controls(buf) {
            Ok(c) => Ok(InReport::Controls(c)),
            Err(e) => Err(e),
        }
    } else if buf[0] == REPORT_IN_PADS {
        match parse_pads(buf) {
            Ok(p) => Ok(InReport::Pads(p)),
            Err(e) => Err(e),
        }
    } else {
        Err(ProtoError::UnknownReport(buf[0]))
    }
}

/// The 16-bit value of the byte pair `(lo, hi)`, least significant first.
fn u16_le(lo: u8, hi: u8) -> (v: u16)
    ensures
        v == lo + 256 * hi,
{
    let v = (lo as u16) | ((hi as u16) << 8);
    assert(v == lo as u16 + 256 * (hi as u16)) by (bit_vector)
        requires
            v == (lo as u16) | ((hi as u16) << 8),
    ;
    v
}

/// The low ten bits of the little-endian word at `off`.
fn analog_at(buf: &[u8], off: usize) -> (v: u16)
    requires
        off + 1 < buf.len(),
    ensures
        v == analog10(buf@, off as int),
{
    let w = u16_le(buf[off], buf[off + 1]);
    let v = w & 0x3ff;
    assert(v == w % 1024) by (bit_vector)
        requires
            v == w & 0x3ff,
    ;
    v
}

fn parse_controls(buf: &[u8]) -> (r: Result<ControlsReport, ProtoError>)
    requires
        buf.len() > 0,
    ensures
        buf.len() < CONTROLS_MIN_LEN ==> r == Err::<ControlsReport, ProtoError>(
            ProtoError::Short { need: CONTROLS_MIN_LEN, have: buf.len() },
        ),
        buf.len() >= CONTROLS_MIN_LEN ==> (r matches Ok(c) && decodes_controls(buf@, c)),
{
    if buf.len() < CONTROLS_MIN_LEN {
        return Err(ProtoError::Short { need: CONTROLS_MIN_LEN, have: buf.len() });
    }
    let (b1, b2, b3, b4) = (buf[1], buf[2], buf[3], buf[4]);
    let (b5, b6, b7, b8) = (buf[5], buf[6], buf[7], buf[8]);
    let buttons: u64 = (b1 as u64) | (b2 as u64) << 8 | (b3 as u64) << 16 | (b4 as u64) << 24
        | (b5 as u64) << 32 | (b6 as u64) << 40 | (b7 as u64) << 48 | (b8 as u64) << 56;
    assert(buttons == b1 as u64 + 0x100 * (b2 as u64) + 0x10000 * (b3 as u64) + 0x1000000 * (
    b4 as u64) + 0x100000000 * (b5 as u64) + 0x10000000000 * (b6 as u64) + 0x1000000000000 * (
    b7 as u64) + 0x100000000000000 * (b8 as u64)) by (bit_vector)
        requires
            buttons == (b1 as u64) | (b2 as u64) << 8 | (b3 as u64) << 16 | (b4 as u64) << 24
                | (b5 as u64) << 32 | (b6 as u64) << 40 | (b7 as u64) << 48 | (b8 as u64) << 56,
    ;
    let mut macros = [0u16; MACRO_ENCODER_COUNT];
    let mut i: usize = 0;
    while i < MACRO_ENCODER_COUNT
        invariant
            i <= 8,
            buf.len() >= CONTROLS_MIN_LEN,
            forall|j: int| 0 <= j < i ==> #[trigger] macros@[j] == analog10(buf@, 9 + 2 * j),
        decreases 8 - i,
    {
        let off = 9 + i * 2;
        let v = analog_at(buf, off);
        macros[i] = v;
        i = i + 1;
    }
    let master = analog_at(buf, 25);
    let strip_pos = analog_at(buf, 27);
    let strip_prs = analog_at(buf, 29);
    let touch_strip = if strip_prs == 0 {
        None
    } else {
        Some((strip_pos, strip_prs))
    };
    let mic_gain = analog_at(buf, 31);
    let headphones = analog_at(buf, 33);
    let master_vol = analog_at(buf, 35);
    Ok(ControlsReport { buttons, macros, master, touch_strip, mic_gain, headphones, master_vol })
}

fn parse_pads(buf: &[u8]) -> (r: Result<PadsReport, ProtoError>)
    requires
        buf.len() > 0,
    ensures
        match pads_prefix(buf@, pad_entries(buf.len() as int)) {
            Ok(s) => r matches Ok(p) && p.samples@ == s,
            Err(e) => r == Err::<PadsReport, ProtoError>(e),
        },
{
    let n = (buf.len() - 1) / 3;
    let mut samples: Vec<PadSample> = Vec::with_capacity(PAD_COUNT);
    let mut k: usize = 0;
    while k < n
        invariant
            n == (buf.len() - 1) / 3,
            k <= n,
            pads_prefix(buf@, k as int) == Ok::<Seq<PadSample>, ProtoError>(samples@),
        decreases n - k,
    {
        let off = 1 + 3 * k;
        let pad = buf[off];
        let pressure = u16_le(buf[off + 1], buf[off + 2]);
        k = k + 1;
        if pad == 0 && pressure == 0 {
            continue;
        }
        if pad as usize >= PAD_COUNT {
            proof {
                lemma_pads_prefix_err_sticks(buf@, k as int, n as int);
            }
            return Err(ProtoError::BadPad(pad));
        }
        samples.push(PadSample { pad, pressure });
    }
    Ok(PadsReport { samples })
}

proof fn lemma_pads_prefix_err_sticks(buf: Seq<u8>, k: int, n: int)
    requires
        0 <= k <= n,
        pads_prefix(buf, k) is Err,
    ensures
        pads_prefix(buf, n) == pads_prefix(buf, k),
    decreases n - k,
{
    if k < n {
        lemma_pads_prefix_err_sticks(buf, k, n - 1);
    }
}

/// The pad index of entry `k` of a pads report.
pub open spec fn pad_at(buf: Seq<u8>, k: int) -> u8 {
    buf[1 + 3 * k]
}

/// The 3-byte pad entries of a pads report, in report order: pad index,
/// then pressure least significant byte first.
pub open spec fn report_entries(buf: Seq<u8>) -> Seq<PadSample> {
    Seq::new(
        pad_entries(buf.len() as int) as nat,
        |k: int| PadSample { pad: buf[1 + 3 * k], pressure: (buf[2 + 3 * k] + 256 * buf[3 + 3 * k]) as u16 },
    )
}

/// An entry that reports something: any but the all-zero filler `(0, 0, 0)`.
pub open spec fn reports_something(s: PadSample) -> bool {
    !(s.pad == 0 && s.pressure == 0)
}

proof fn lemma_pads_prefix_entries(buf: Seq<u8>, n: int)
    requires
        buf.len() >= 1,
        0 <= n <= pad_entries(buf.len() as int),
    ensures
        (pads_prefix(buf, n) is Ok) <==> (forall|k: int| 0 <= k < n ==> #[trigger] pad_at(buf, k) < 16),
        pads_prefix(buf, n) is Ok ==> pads_prefix(buf, n)->Ok_0 == report_entries(buf).take(n).filter(
            |s: PadSample| reports_something(s),
        ),
        pads_prefix(buf, n) is Err ==> exists|k: int|
            0 <= k < n && #[trigger] pad_at(buf, k) >= 16 && (forall|j: int| 0 <= j < k ==> pad_at(buf, j)
                < 16) && pads_prefix(buf, n)->Err_0 == ProtoError::BadPad(pad_at(buf, k)),
    decreases n,
{
    if n > 0 {
        lemma_pads_prefix_entries(buf, n - 1);
        let es = report_entries(buf);
        assert(3 * (n - 1) + 4 <= buf.len()) by (nonlinear_arith)
            requires
                n - 1 < (buf.len() - 1) / 3,
                n >= 1,
        ;
        let e = es[n - 1];
        assert(e == PadSample { pad: buf[1 + 3 * (n - 1)], pressure: (buf[2 + 3 * (n - 1)] + 256 * buf[3 + 3 * (n - 1)]) as u16 });
        assert(es.take(n).drop_last() =~= es.take(n - 1));
        assert(es.take(n).last() == e);
        let pred = |s: PadSample| reports_something(s);
        let t = es.take(n);
        assert(t.len() == n && t.len() > 0);
        reveal(Seq::filter);
        assert(t.filter(pred) == if pred(t.last()) {
            t.drop_last().filter(pred).push(t.last())
        } else {
            t.drop_last().filter(pred)
        });
        let off = 1 + 3 * (n - 1);
        assert(le16(buf, off + 1) == buf[2 + 3 * (n - 1)] + 256 * buf[3 + 3 * (n - 1)]);
        assert(e.pressure as int == le16(buf, off + 1));
        if pads_prefix(buf, n - 1) is Err {
            let k = choose|k: int|
                0 <= k < n - 1 && #[trigger] pad_at(buf, k) >= 16 && (forall|j: int| 0 <= j < k ==> pad_at(buf, j) < 16) && pads_prefix(buf, n - 1)->Err_0 == ProtoError::BadPad(pad_at(buf, k));
            assert(pad_at(buf, k) >= 16);
        } else {
            if buf[1 + 3 * (n - 1)] >= 16 {
                assert(pads_prefix(buf, n) == Err::<Seq<PadSample>, ProtoError>(ProtoError::BadPad(buf[1 + 3 * (n - 1)])));
                assert(!(forall|k: int| 0 <= k < n ==> #[trigger] pad_at(buf, k) < 16)) by {
                    assert(pad_at(buf, n - 1) >= 16);
                }
            } else {
                assert forall|k: int| 0 <= k < n implies #[trigger] pad_at(buf, k) < 16 by {
                    if k < n - 1 {
                        assert(pad_at(buf, k) < 16);
                    }
                }
            }
        }
    }
}

/// A pads report keeps every entry that reports something: parsing fails
/// exactly when some entry names a pad of 16 or more, with the first such
/// pad; otherwise the samples are the report's entries in order, every one
/// kept but the all-zero filler `(0, 0, 0)`. A pressed pad 0 is kept like
/// any other pad.
pub proof fn pads_keep_every_reported_entry(buf: Seq<u8>, r: Result<InReport, ProtoError>)
    requires
        parse_spec(buf, r),
        buf.len() > 0,
        buf[0] == REPORT_IN_PADS,
    ensures
        (r is Ok) <==> (forall|k: int|
            0 <= k < pad_entries(buf.len() as int) ==> #[trigger] pad_at(buf, k) < 16),
        r is Ok ==> (r->Ok_0 is Pads) && r->Ok_0->Pads_0.samples@ == report_entries(buf).filter(
            |s: PadSample| reports_something(s),
        ),
        r is Err ==> exists|k: int|
            0 <= k < pad_entries(buf.len() as int) && #[trigger] pad_at(buf, k) >= 16 && (forall|j: int|
                0 <= j < k ==> pad_at(buf, j) < 16) && r->Err_0 == ProtoError::BadPad(pad_at(buf, k)),
{
    let n = pad_entries(buf.len() as int);
    lemma_pads_prefix_entries(buf, n);
    reveal(Seq::filter);
    assert(report_entries(buf).take(n) =~= report_entries(buf));
}

} // verus!
