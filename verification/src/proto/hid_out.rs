//! Encoders for the HID OUT reports that drive every LED of the Mk3.
//!
//! * `0x80`: one intensity byte per button/encoder LED slot.
//! * `0x81`: touch-strip RGB triples (25) followed by pad RGB triples (16).
use vstd::prelude::*;
use crate::proto::types::{
    ProtoError, Rgb, PAD_COUNT, REPORT_OUT_BUTTON_LEDS, REPORT_OUT_PAD_LEDS, TOUCHSTRIP_LED_COUNT,
};

verus! {

/// Number of monochrome LED slots driven by the `0x80` report.
pub const BUTTON_LED_SLOTS: usize = 62;

/// Length of the pad-LED report payload (excluding the report id).
pub const PAD_LED_PAYLOAD: usize = 123;

/// Offset of the first pad triple in a `0x81` report.
pub open spec fn pad_base() -> int {
    1 + 3 * TOUCHSTRIP_LED_COUNT
}

/// `out` holds the colour `c` at `off..off + 3`.
pub open spec fn holds_rgb(out: Seq<u8>, off: int, c: Rgb) -> bool {
    out[off] == c.r && out[off + 1] == c.g && out[off + 2] == c.b
}

/// Encodes the button/encoder LED report. Returns the report length
/// (report id included).
pub fn encode_button_leds(values: &[u8; BUTTON_LED_SLOTS], out: &mut [u8]) -> (r: Result<
    usize,
    ProtoError,
>)
    ensures
        old(out)@.len() < 1 + BUTTON_LED_SLOTS ==> r == Err::<usize, ProtoError>(
            ProtoError::OutputTooSmall { need: (1 + BUTTON_LED_SLOTS) as usize, have: old(out)@.len() as usize },
        ) && final(out)@ == old(out)@,
        old(out)@.len() >= 1 + BUTTON_LED_SLOTS ==> r == Ok::<usize, ProtoError>((1 + BUTTON_LED_SLOTS) as usize) && final(out)@ == seq![REPORT_OUT_BUTTON_LEDS] + values@ + old(out)@.skip(
            1 + BUTTON_LED_SLOTS as int,
        ),
{
    let need = 1 + BUTTON_LED_SLOTS;
    if out.len() < need {
        return Err(ProtoError::OutputTooSmall { need, have: out.len() });
    }
    out[0] = REPORT_OUT_BUTTON_LEDS;
    let mut i: usize = 0;
    while i < BUTTON_LED_SLOTS
        invariant
            i <= BUTTON_LED_SLOTS,
            out@.len() == old(out)@.len(),
            old(out)@.len() >= need,
            need == 1 + BUTTON_LED_SLOTS,
            out@[0] == REPORT_OUT_BUTTON_LEDS,
            forall|j: int| 0 <= j < i ==> out@[1 + j] == values@[j],
            forall|j: int| 1 + i <= j < out@.len() ==> out@[j] == old(out)@[j],
        decreases BUTTON_LED_SLOTS - i,
    {
        out[1 + i] = values[i];
        i = i + 1;
    }
    assert(out@ =~= seq![REPORT_OUT_BUTTON_LEDS] + values@ + old(out)@.skip(need as int));
    Ok(need)
}

/// Encodes the pad and touch-strip LED report: strip colours first
/// (index 0 = leftmost LED), then the pad colours. Returns the report
/// length (report id included).
pub fn encode_pad_leds(
    strip: &[Rgb; TOUCHSTRIP_LED_COUNT],
    pads: &[Rgb; PAD_COUNT],
    out: &mut [u8],
) -> (r: Result<usize, ProtoError>)
    ensures
        final(out)@.len() == old(out)@.len(),
        old(out)@.len() < 1 + PAD_LED_PAYLOAD ==> r == Err::<usize, ProtoError>(
            ProtoError::OutputTooSmall { need: (1 + PAD_LED_PAYLOAD) as usize, have: old(out)@.len() as usize },
        ) && final(out)@ == old(out)@,
        old(out)@.len() >= 1 + PAD_LED_PAYLOAD ==> {
            &&& r == Ok::<usize, ProtoError>((1 + PAD_LED_PAYLOAD) as usize)
            &&& final(out)@[0] == REPORT_OUT_PAD_LEDS
            &&& forall|i: int|
                0 <= i < TOUCHSTRIP_LED_COUNT ==> holds_rgb(final(out)@, 1 + 3 * i, #[trigger] strip@[i])
            &&& forall|i: int|
                0 <= i < PAD_COUNT ==> holds_rgb(final(out)@, pad_base() + 3 * i, #[trigger] pads@[i])
            &&& forall|j: int|
                1 + PAD_LED_PAYLOAD <= j < old(out)@.len() ==> #[trigger] final(out)@[j] == old(out)@[j]
        },
{
    let need = 1 + PAD_LED_PAYLOAD;
    if out.len() < need {
        return Err(ProtoError::OutputTooSmall { need, have: out.len() });
    }
    out[0] = REPORT_OUT_PAD_LEDS;
    let mut k: usize = 0;
    while k < TOUCHSTRIP_LED_COUNT
        invariant
            k <= TOUCHSTRIP_LED_COUNT,
            out@.len() == old(out)@.len(),
            old(out)@.len() >= need,
            need == 1 + PAD_LED_PAYLOAD,
            out@[0] == REPORT_OUT_PAD_LEDS,
            forall|i: int| 0 <= i < k ==> holds_rgb(out@, 1 + 3 * i, #[trigger] strip@[i]),
            forall|j: int| 1 + 3 * k <= j < out@.len() ==> #[trigger] out@[j] == old(out)@[j],
        decreases TOUCHSTRIP_LED_COUNT - k,
    {
        let c = strip[k];
        let i = 1 + 3 * k;
        out[i] = c.r;
        out[i + 1] = c.g;
        out[i + 2] = c.b;
        k = k + 1;
    }
    let mut k: usize = 0;
    while k < PAD_COUNT
        invariant
            k <= PAD_COUNT,
            out@.len() == old(out)@.len(),
            old(out)@.len() >= need,
            need == 1 + PAD_LED_PAYLOAD,
            out@[0] == REPORT_OUT_PAD_LEDS,
            forall|i: int|
                0 <= i < TOUCHSTRIP_LED_COUNT ==> holds_rgb(out@, 1 + 3 * i, #[trigger] strip@[i]),
            forall|i: int| 0 <= i < k ==> holds_rgb(out@, pad_base() + 3 * i, #[trigger] pads@[i]),
            forall|j: int| pad_base() + 3 * k <= j < out@.len() ==> #[trigger] out@[j] == old(out)@[j],
        decreases PAD_COUNT - k,
    {
        let c = pads[k];
        let i = 1 + 3 * TOUCHSTRIP_LED_COUNT + 3 * k;
        out[i] = c.r;
        out[i + 1] = c.g;
        out[i + 2] = c.b;
        k = k + 1;
    }
    Ok(need)
}

/// Builds a pad-LED report with every strip LED off and every pad set to
/// `color`.
pub fn encode_pads_solid(color: Rgb, out: &mut [u8]) -> (r: Result<usize, ProtoError>)
    ensures
        final(out)@.len() == old(out)@.len(),
        old(out)@.len() < 1 + PAD_LED_PAYLOAD ==> r == Err::<usize, ProtoError>(
            ProtoError::OutputTooSmall { need: (1 + PAD_LED_PAYLOAD) as usize, have: old(out)@.len() as usize },
        ) && final(out)@ == old(out)@,
        old(out)@.len() >= 1 + PAD_LED_PAYLOAD ==> {
            &&& r == Ok::<usize, ProtoError>((1 + PAD_LED_PAYLOAD) as usize)
            &&& final(out)@[0] == REPORT_OUT_PAD_LEDS
            &&& forall|i: int|
                0 <= i < TOUCHSTRIP_LED_COUNT ==> #[trigger] holds_rgb(
                    final(out)@,
                    1 + 3 * i,
                    Rgb { r: 0, g: 0, b: 0 },
                )
            &&& forall|i: int|
                0 <= i < PAD_COUNT ==> #[trigger] holds_rgb(final(out)@, pad_base() + 3 * i, color)
            &&& forall|j: int|
                1 + PAD_LED_PAYLOAD <= j < old(out)@.len() ==> #[trigger] final(out)@[j] == old(out)@[j]
        },
{
    let strip = [Rgb::black(); TOUCHSTRIP_LED_COUNT];
    let pads = [color; PAD_COUNT];
    let r = encode_pad_leds(&strip, &pads, out);
    proof {
        if old(out)@.len() >= 1 + PAD_LED_PAYLOAD {
            assert forall|i: int| 0 <= i < TOUCHSTRIP_LED_COUNT implies #[trigger] holds_rgb(
                out@,
                1 + 3 * i,
                Rgb { r: 0, g: 0, b: 0 },
            ) by {
                assert(strip@[i] == Rgb { r: 0, g: 0, b: 0 });
            }
            assert forall|i: int| 0 <= i < PAD_COUNT implies #[trigger] holds_rgb(
                out@,
                pad_base() + 3 * i,
                color,
            ) by {
                assert(pads@[i] == color);
            }
        }
    }
    r
}

} // verus!
