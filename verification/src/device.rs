//! Turning raw HID IN frames into edge events: the per-device diff state,
//! pad hysteresis and jitter filtering, and the open-time options.
use vstd::prelude::*;
use crate::event::{AnalogKnob, Event, PadPhase};
use crate::proto::hid_in::{
    decodes_controls, diff_upto, encoder_delta_spec, pad_entries, pads_prefix, parse, parse_spec,
    ControlsReport, InReport, PadSample, PadsReport,
};
use crate::proto::types::PAD_COUNT;

verus! {

/// Tunable thresholds and behaviour at open time.
#[derive(Debug, Clone, Copy)]
pub struct OpenOptions {
    /// Raw pressure below which a held pad is released.
    pub pad_off_threshold: u16,
    /// Raw pressure at or above which a released pad emits `Attack`.
    pub pad_on_threshold: u16,
    /// Minimum pressure change between consecutive `Pressure` events.
    pub pad_pressure_step: u16,
    /// Emit every pad sample as `Pressure`, without hysteresis.
    pub raw_pad_stream: bool,
    /// Event channel capacity.
    pub event_capacity: usize,
}

impl Default for OpenOptions {
    fn default() -> (o: OpenOptions)
        ensures
            o.pad_off_threshold == 0x4005,
            o.pad_on_threshold == 0x4010,
            o.pad_pressure_step == 3,
            !o.raw_pad_stream,
            o.event_capacity == 1024,
    {
        OpenOptions {
            pad_off_threshold: 0x4005,
            pad_on_threshold: 0x4010,
            pad_pressure_step: 3,
            raw_pad_stream: false,
            event_capacity: 1024,
        }
    }
}

/// Velocity (0..=127) of a pad hit with raw pressure `p`: the pressure
/// above 0x4000, clipped to 0xFFD, scaled to 127.
pub open spec fn velocity_spec(p: u16) -> int {
    let above = if p >= 0x4000 {
        p - 0x4000
    } else {
        0
    };
    let clipped = if above < 0xFFD {
        above
    } else {
        0xFFD
    };
    (clipped * 127) / 0xFFD
}

pub fn pressure_to_velocity(p: u16) -> (v: u8)
    ensures
        v == velocity_spec(p),
{
    let base = 0x4000u16;
    let range = 0x0FFDu16;
    let above = if p >= base {
        p - base
    } else {
        0
    };
    let clipped = if above < range {
        above
    } else {
        range
    };
    assert(clipped as u32 * 127 <= 0xFFD * 127) by (nonlinear_arith)
        requires
            clipped <= 0xFFD,
    ;
    assert((clipped as u32 * 127) / 0xFFD <= 127) by (nonlinear_arith)
        requires
            clipped <= 0xFFD,
    ;
    ((clipped as u32 * 127) / range as u32) as u8
}

/// Per-pad tracking: last pressure, held flag and peak since the attack.
pub struct PadTrack {
    pub pressures: Seq<u16>,
    pub on: Seq<bool>,
    pub peak: Seq<u16>,
}

/// Absolute difference of two pressures.
pub open spec fn pressure_diff(a: u16, b: u16) -> int {
    if a >= b {
        a - b
    } else {
        b - a
    }
}

/// Tracking state and events after one pad sample.
pub open spec fn pad_step(t: PadTrack, s: PadSample, o: OpenOptions) -> (PadTrack, Seq<Event>) {
    let i = s.pad as int;
    let p = s.pressure;
    let pressures = t.pressures.update(i, p);
    if o.raw_pad_stream {
        (
            PadTrack { pressures, on: t.on, peak: t.peak },
            seq![Event::Pad { pad: s.pad, pressure: p, velocity: None, phase: PadPhase::Pressure }],
        )
    } else if !t.on[i] && p >= o.pad_on_threshold {
        (
            PadTrack { pressures, on: t.on.update(i, true), peak: t.peak.update(i, p) },
            seq![
                Event::Pad {
                    pad: s.pad,
                    pressure: p,
                    velocity: Some(velocity_spec(p) as u8),
                    phase: PadPhase::Attack,
                },
            ],
        )
    } else if t.on[i] && p < o.pad_off_threshold {
        (
            PadTrack { pressures, on: t.on.update(i, false), peak: t.peak },
            seq![Event::Pad { pad: s.pad, pressure: p, velocity: None, phase: PadPhase::Release }],
        )
    } else if t.on[i] {
        (
            PadTrack {
                pressures,
                on: t.on,
                peak: if p > t.peak[i] {
                    t.peak.update(i, p)
                } else {
                    t.peak
                },
            },
            if pressure_diff(p, t.pressures[i]) >= o.pad_pressure_step {
                seq![Event::Pad { pad: s.pad, pressure: p, velocity: None, phase: PadPhase::Pressure }]
            } else {
                seq![]
            },
        )
    } else {
        (PadTrack { pressures, on: t.on, peak: t.peak }, seq![])
    }
}

/// Tracking state and events after the samples `ss`, in order.
pub open spec fn pad_steps(t: PadTrack, ss: Seq<PadSample>, o: OpenOptions) -> (PadTrack, Seq<Event>)
    decreases ss.len(),
{
    if ss.len() == 0 {
        (t, seq![])
    } else {
        let (t1, e1) = pad_steps(t, ss.drop_last(), o);
        let (t2, e2) = pad_step(t1, ss.last(), o);
        (t2, e1 + e2)
    }
}

/// Button bitmask of the previous report (0 before the first one).
pub open spec fn prev_buttons(p: Option<ControlsReport>) -> u64 {
    match p {
        Some(c) => c.buttons,
        None => 0,
    }
}

/// Macro encoder `i` of the previous report (0 before the first one).
pub open spec fn prev_macro(p: Option<ControlsReport>, i: int) -> u16 {
    match p {
        Some(c) => c.macros@[i],
        None => 0,
    }
}

pub open spec fn prev_master(p: Option<ControlsReport>) -> u16 {
    match p {
        Some(c) => c.master,
        None => 0,
    }
}

pub open spec fn prev_strip(p: Option<ControlsReport>) -> Option<(u16, u16)> {
    match p {
        Some(c) => c.touch_strip,
        None => None,
    }
}

pub open spec fn prev_mic(p: Option<ControlsReport>) -> u16 {
    match p {
        Some(c) => c.mic_gain,
        None => 0,
    }
}

pub open spec fn prev_headphones(p: Option<ControlsReport>) -> u16 {
    match p {
        Some(c) => c.headphones,
        None => 0,
    }
}

pub open spec fn prev_master_vol(p: Option<ControlsReport>) -> u16 {
    match p {
        Some(c) => c.master_vol,
        None => 0,
    }
}

/// `Button` events for the changed bits.
pub open spec fn button_events(d: Seq<(u8, bool)>) -> Seq<Event> {
    d.map_values(|b: (u8, bool)| Event::Button { bit: b.0, pressed: b.1 })
}

/// `MacroEncoder` events of encoders `0..n` that moved.
pub open spec fn macro_events(p: Option<ControlsReport>, c: ControlsReport, n: int) -> Seq<Event>
    decreases n,
{
    if n <= 0 {
        seq![]
    } else {
        let d = encoder_delta_spec(prev_macro(p, n - 1), c.macros@[n - 1]);
        macro_events(p, c, n - 1) + if d != 0 {
            seq![
                Event::MacroEncoder {
                    index: (n - 1) as u8,
                    delta: d as i16,
                    absolute: c.macros@[n - 1],
                },
            ]
        } else {
            seq![]
        }
    }
}

/// Master encoder, touch strip and analog knob events for `c` after `p`.
pub open spec fn tail_events(p: Option<ControlsReport>, c: ControlsReport) -> Seq<Event> {
    let md = encoder_delta_spec(prev_master(p), c.master);
    (if md != 0 {
        seq![Event::MasterEncoder { delta: md as i16, absolute: c.master }]
    } else {
        seq![]
    }) + (match (prev_strip(p), c.touch_strip) {
        (_, Some((pos, prs))) => seq![Event::TouchStrip { position: pos, pressure: prs }],
        (Some(_), None) => seq![Event::TouchStripReleased],
        _ => seq![],
    }) + (if prev_mic(p) != c.mic_gain {
        seq![Event::Analog { which: AnalogKnob::MicGain, value: c.mic_gain }]
    } else {
        seq![]
    }) + (if prev_headphones(p) != c.headphones {
        seq![Event::Analog { which: AnalogKnob::Headphones, value: c.headphones }]
    } else {
        seq![]
    }) + (if prev_master_vol(p) != c.master_vol {
        seq![Event::Analog { which: AnalogKnob::MasterVolume, value: c.master_vol }]
    } else {
        seq![]
    })
}

/// Events for a controls report `c` after the previous report `p`:
/// button edges, macro encoder moves, master encoder move, touch strip,
/// then the analog knobs that changed.
pub open spec fn controls_events(p: Option<ControlsReport>, c: ControlsReport) -> Seq<Event> {
    button_events(diff_upto(c.buttons, prev_buttons(p), 64)) + macro_events(p, c, 8) + tail_events(
        p,
        c,
    )
}

/// Appends the master encoder, touch strip and analog events.
fn push_tail_events(
    p: Option<ControlsReport>,
    prev: &ControlsReport,
    c: &ControlsReport,
    out: &mut Vec<Event>,
)
    requires
        prev.master == prev_master(p),
        prev.touch_strip == prev_strip(p),
        prev.mic_gain == prev_mic(p),
        prev.headphones == prev_headphones(p),
        prev.master_vol == prev_master_vol(p),
    ensures
        final(out)@ == old(out)@ + tail_events(p, *c),
{
    let ghost o0 = old(out)@;
    let mdelta = ControlsReport::encoder_delta(prev.master, c.master);
    if mdelta != 0 {
        out.push(Event::MasterEncoder { delta: mdelta, absolute: c.master });
    }
    let ghost o1 = out@;
    match (prev.touch_strip, c.touch_strip) {
        (_, Some((pos, prs))) => {
            out.push(Event::TouchStrip { position: pos, pressure: prs });
        },
        (Some(_), None) => {
            out.push(Event::TouchStripReleased);
        },
        _ => {},
    }
    let ghost o2 = out@;
    if prev.mic_gain != c.mic_gain {
        out.push(Event::Analog { which: AnalogKnob::MicGain, value: c.mic_gain });
    }
    let ghost o3 = out@;
    if prev.headphones != c.headphones {
        out.push(Event::Analog { which: AnalogKnob::Headphones, value: c.headphones });
    }
    let ghost o4 = out@;
    if prev.master_vol != c.master_vol {
        out.push(Event::Analog { which: AnalogKnob::MasterVolume, value: c.master_vol });
    }
    assert(out@ =~= o0 + tail_events(p, *c));
}

/// State kept between frames so that edges are emitted instead of
/// duplicates.
pub struct DiffState {
    pub controls: Option<ControlsReport>,
    pub pad_pressures: [u16; PAD_COUNT],
    pub pad_on: [bool; PAD_COUNT],
    pub pad_peak_since_attack: [u16; PAD_COUNT],
}

impl DiffState {
    pub open spec fn track(&self) -> PadTrack {
        PadTrack {
            pressures: self.pad_pressures@,
            on: self.pad_on@,
            peak: self.pad_peak_since_attack@,
        }
    }

    /// Nothing seen yet: no previous report, every pad released at rest.
    pub fn new() -> (s: DiffState)
        ensures
            s.controls is None,
            forall|i: int| 0 <= i < PAD_COUNT ==> #[trigger] s.pad_pressures@[i] == 0,
            forall|i: int| 0 <= i < PAD_COUNT ==> !#[trigger] s.pad_on@[i],
            forall|i: int| 0 <= i < PAD_COUNT ==> #[trigger] s.pad_peak_since_attack@[i] == 0,
    {
        DiffState {
            controls: None,
            pad_pressures: [0u16; PAD_COUNT],
            pad_on: [false; PAD_COUNT],
            pad_peak_since_attack: [0u16; PAD_COUNT],
        }
    }

    /// Events for one controls report; remembers it as the previous one.
    pub fn apply_controls(&mut self, c: ControlsReport) -> (ev: Vec<Event>)
        ensures
            ev@ == controls_events(old(self).controls, c),
            final(self).controls == Some(c),
            final(self).track() == old(self).track(),
    {
        let p = self.controls;
        let prev = match p {
            Some(pc) => pc,
            None => ControlsReport::default(),
        };
        assert(prev.buttons == prev_buttons(p));
        let mut out: Vec<Event> = Vec::new();
        let diff = c.buttons_diff(prev.buttons);
        let mut k: usize = 0;
        while k < diff.len()
            invariant
                k <= diff@.len(),
                diff@ == diff_upto(c.buttons, prev_buttons(p), 64),
                out@ == button_events(diff@.take(k as int)),
            decreases diff@.len() - k,
        {
            let (bit, pressed) = diff[k];
            out.push(Event::Button { bit, pressed });
            assert(diff@.take(k + 1) == diff@.take(k as int).push(diff@[k as int]));
            k = k + 1;
        }
        assert(diff@.take(diff@.len() as int) == diff@);
        let ghost after_buttons = out@;
        let mut i: usize = 0;
        while i < 8
            invariant
                i <= 8,
                forall|j: int| 0 <= j < 8 ==> #[trigger] prev.macros@[j] == prev_macro(p, j),
                out@ == after_buttons + macro_events(p, c, i as int),
            decreases 8 - i,
        {
            let now = c.macros[i];
            let was = prev.macros[i];
            let delta = ControlsReport::encoder_delta(was, now);
            if delta != 0 {
                out.push(Event::MacroEncoder { index: i as u8, delta, absolute: now });
            }
            i = i + 1;
        }
        let ghost after_macros = out@;
        push_tail_events(p, &prev, &c, &mut out);
        self.controls = Some(c);
        assert(out@ =~= controls_events(p, c)) by {
            assert(after_macros == button_events(diff_upto(c.buttons, prev_buttons(p), 64))
                + macro_events(p, c, 8));
        }
        out
    }

    /// Events for the samples of one pad report, in order, with hysteresis
    /// (unless `raw_pad_stream`) and jitter filtering.
    pub fn apply_pads(&mut self, pads: &PadsReport, opts: &OpenOptions) -> (ev: Vec<Event>)
        requires
            forall|k: int| 0 <= k < pads.samples@.len() ==> #[trigger] pads.samples@[k].pad < 16,
        ensures
            (final(self).track(), ev@) == pad_steps(old(self).track(), pads.samples@, *opts),
            final(self).controls == old(self).controls,
    {
        let mut out: Vec<Event> = Vec::new();
        let ghost t0 = self.track();
        let mut k: usize = 0;
        while k < pads.samples.len()
            invariant
                k <= pads.samples@.len(),
                forall|j: int| 0 <= j < pads.samples@.len() ==> #[trigger] pads.samples@[j].pad < 16,
                (self.track(), out@) == pad_steps(t0, pads.samples@.take(k as int), *opts),
                self.controls == old(self).controls,
            decreases pads.samples@.len() - k,
        {
            let ghost before = self.track();
            let ghost out_before = out@;
            let s = pads.samples[k];
            let pad = s.pad;
            let pressure = s.pressure;
            let i = pad as usize;
            assert(pads.samples@.take(k + 1).drop_last() == pads.samples@.take(k as int));
            assert(pads.samples@.take(k + 1).last() == s);
            if opts.raw_pad_stream {
                out.push(Event::Pad { pad, pressure, velocity: None, phase: PadPhase::Pressure });
                self.pad_pressures[i] = pressure;
            } else {
                let was_on = self.pad_on[i];
                if !was_on && pressure >= opts.pad_on_threshold {
                    self.pad_on[i] = true;
                    self.pad_peak_since_attack[i] = pressure;
                    let v = pressure_to_velocity(pressure);
                    out.push(
                        Event::Pad { pad, pressure, velocity: Some(v), phase: PadPhase::Attack },
                    );
                } else if was_on && pressure < opts.pad_off_threshold {
                    self.pad_on[i] = false;
                    out.push(Event::Pad { pad, pressure, velocity: None, phase: PadPhase::Release });
                } else if was_on {
                    if pressure > self.pad_peak_since_attack[i] {
                        self.pad_peak_since_attack[i] = pressure;
                    }
                    let last = self.pad_pressures[i];
                    let diff = if pressure >= last {
                        pressure - last
                    } else {
                        last - pressure
                    };
                    if diff >= opts.pad_pressure_step {
                        out.push(
                            Event::Pad { pad, pressure, velocity: None, phase: PadPhase::Pressure },
                        );
                    }
                }
                self.pad_pressures[i] = pressure;
            }
            proof {
                let (t2, e2) = pad_step(before, s, *opts);
                assert(self.track().pressures =~= t2.pressures);
                assert(self.track().on =~= t2.on);
                assert(self.track().peak =~= t2.peak);
                assert(out@ =~= out_before + e2);
            }
            k = k + 1;
        }
        assert(pads.samples@.take(pads.samples@.len() as int) == pads.samples@);
        out
    }

    /// Events for one raw HID IN frame. Frames that do not parse give no
    /// event and leave the state unchanged.
    pub fn handle_frame(&mut self, raw: &[u8], opts: &OpenOptions) -> (ev: Vec<Event>)
        ensures
            raw@.len() == 0 || (raw@[0] != 1 && raw@[0] != 2) ==> ev@.len() == 0 && *final(self)
                == *old(self),
            raw@.len() > 0 && raw@[0] == 1 && raw@.len() < 37 ==> ev@.len() == 0 && *final(self)
                == *old(self),
            raw@.len() >= 37 && raw@[0] == 1 ==> exists|c: ControlsReport|
                decodes_controls(raw@, c) && ev@ == controls_events(old(self).controls, c)
                    && final(self).controls == Some(c) && final(self).track() == old(self).track(),
            raw@.len() > 0 && raw@[0] == 2 ==> match pads_prefix(
                raw@,
                pad_entries(raw@.len() as int),
            ) {
                Ok(s) => (final(self).track(), ev@) == pad_steps(old(self).track(), s, *opts)
                    && final(self).controls == old(self).controls,
                Err(_) => ev@.len() == 0 && *final(self) == *old(self),
            },
    {
        let parsed = parse(raw);
        match parsed {
            Ok(InReport::Controls(c)) => self.apply_controls(c),
            Ok(InReport::Pads(p)) => {
                proof {
                    lemma_pads_prefix_valid(raw@, pad_entries(raw@.len() as int));
                }
                self.apply_pads(&p, opts)
            },
            Err(_) => Vec::new(),
        }
    }
}

/// Every sample that the pad parser keeps has a pad index below 16.
pub proof fn lemma_pads_prefix_valid(buf: Seq<u8>, n: int)
    ensures
        pads_prefix(buf, n) matches Ok(s) ==> forall|k: int|
            0 <= k < s.len() ==> #[trigger] s[k].pad < 16,
    decreases n,
{
    if n > 0 {
        lemma_pads_prefix_valid(buf, n - 1);
    }
}

/// Velocity stays within MIDI range and never decreases with pressure: it
/// is 0 at or below the rest level 0x4000, 127 from 0x4FFD on, and a
/// harder press never gives a softer velocity.
pub proof fn velocity_bounded_monotone(p: u16, q: u16)
    ensures
        0 <= velocity_spec(p) <= 127,
        p <= q ==> velocity_spec(p) <= velocity_spec(q),
        p <= 0x4000 ==> velocity_spec(p) == 0,
        p >= 0x4FFD ==> velocity_spec(p) == 127,
{
    let cp: int = if p >= 0x4000 {
        if p - 0x4000 < 0xFFD {
            p - 0x4000
        } else {
            0xFFD
        }
    } else {
        0
    };
    let cq: int = if q >= 0x4000 {
        if q - 0x4000 < 0xFFD {
            q - 0x4000
        } else {
            0xFFD
        }
    } else {
        0
    };
    assert(velocity_spec(p) == (cp * 127) / 0xFFD);
    assert(velocity_spec(q) == (cq * 127) / 0xFFD);
    assert(0 <= (cp * 127) / 0xFFD <= 127) by (nonlinear_arith)
        requires
            0 <= cp <= 0xFFD,
    ;
    assert(cp <= cq ==> (cp * 127) / 0xFFD <= (cq * 127) / 0xFFD) by (nonlinear_arith)
        requires
            0 <= cp,
            0 <= cq,
    ;
}

/// The phases of the `Attack` and `Release` events of pad `pad` among
/// `evs`, in order.
pub open spec fn edge_phases(evs: Seq<Event>, pad: u8) -> Seq<PadPhase>
    decreases evs.len(),
{
    if evs.len() == 0 {
        seq![]
    } else {
        let rest = edge_phases(evs.drop_last(), pad);
        match evs.last() {
            Event::Pad { pad: p, phase, .. } => if p == pad && phase != PadPhase::Pressure {
                rest.push(phase)
            } else {
                rest
            },
            _ => rest,
        }
    }
}

/// Whether `phases` alternate between `Attack` and `Release`, starting
/// from a pad that is held (`on`) or not; `Some` of the held state at the
/// end when they do.
pub open spec fn alternate_from(on: bool, phases: Seq<PadPhase>) -> Option<bool>
    decreases phases.len(),
{
    if phases.len() == 0 {
        Some(on)
    } else {
        match alternate_from(on, phases.drop_last()) {
            Some(held) => if phases.last() == (if held {
                PadPhase::Release
            } else {
                PadPhase::Attack
            }) {
                Some(!held)
            } else {
                None
            },
            None => None,
        }
    }
}

proof fn lemma_pad_steps_len(t: PadTrack, ss: Seq<PadSample>, o: OpenOptions)
    requires
        forall|k: int| 0 <= k < ss.len() ==> #[trigger] ss[k].pad < t.on.len(),
        t.on.len() == t.pressures.len() == t.peak.len(),
    ensures
        pad_steps(t, ss, o).0.on.len() == t.on.len(),
        pad_steps(t, ss, o).0.pressures.len() == t.on.len(),
        pad_steps(t, ss, o).0.peak.len() == t.on.len(),
    decreases ss.len(),
{
    if ss.len() > 0 {
        lemma_pad_steps_len(t, ss.drop_last(), o);
    }
}

/// With hysteresis on, the `Attack` and `Release` events of each pad
/// alternate, starting from the pad's held state before the samples, and
/// the held state afterwards is where that alternation ends: a pad is never
/// attacked twice without a release in between, nor released while up.
pub proof fn pad_edges_alternate(t: PadTrack, ss: Seq<PadSample>, o: OpenOptions, pad: u8)
    requires
        !o.raw_pad_stream,
        pad < 16,
        t.on.len() == 16,
        t.pressures.len() == 16,
        t.peak.len() == 16,
        forall|k: int| 0 <= k < ss.len() ==> #[trigger] ss[k].pad < 16,
    ensures
        alternate_from(t.on[pad as int], edge_phases(pad_steps(t, ss, o).1, pad)) == Some(
            pad_steps(t, ss, o).0.on[pad as int],
        ),
    decreases ss.len(),
{
    if ss.len() > 0 {
        let front = ss.drop_last();
        pad_edges_alternate(t, front, o, pad);
        lemma_pad_steps_len(t, front, o);
        let (t1, e1) = pad_steps(t, front, o);
        let s = ss.last();
        let (t2, e2) = pad_step(t1, s, o);
        assert(pad_steps(t, ss, o) == (t2, e1 + e2));
        if e2.len() == 0 {
            assert(e1 + e2 =~= e1);
        } else {
            assert(e2.len() == 1);
            assert((e1 + e2).drop_last() =~= e1);
            assert((e1 + e2).last() == e2[0]);
            let ep = edge_phases(e1, pad);
            if s.pad == pad {
                let h = t1.on[pad as int];
                if !h && s.pressure >= o.pad_on_threshold {
                    assert(edge_phases(e1 + e2, pad) == ep.push(PadPhase::Attack));
                    assert(ep.push(PadPhase::Attack).drop_last() =~= ep);
                } else if h && s.pressure < o.pad_off_threshold {
                    assert(edge_phases(e1 + e2, pad) == ep.push(PadPhase::Release));
                    assert(ep.push(PadPhase::Release).drop_last() =~= ep);
                } else {
                    assert(edge_phases(e1 + e2, pad) == ep);
                }
            } else {
                assert(edge_phases(e1 + e2, pad) == ep);
                assert(t2.on[pad as int] == t1.on[pad as int]);
            }
        }
    }
}

/// Whether the events of pad `pad` among `evs` follow
/// `(Attack Pressure* Release)*` from a pad held (`on`) or not, each as the
/// options allow: an `Attack` of an up pad at or above the on threshold
/// with the velocity of its pressure, a `Pressure` of a held pad, a
/// `Release` of a held pad below the off threshold, the latter two without
/// velocity. `Some` of the held state at the end when they do.
pub open spec fn pad_phrase(on: bool, evs: Seq<Event>, pad: u8, o: OpenOptions) -> Option<bool>
    decreases evs.len(),
{
    if evs.len() == 0 {
        Some(on)
    } else {
        match pad_phrase(on, evs.drop_last(), pad, o) {
            None => None,
            Some(held) => match evs.last() {
                Event::Pad { pad: p, pressure, velocity, phase } => if p != pad {
                    Some(held)
                } else {
                    match phase {
                        PadPhase::Attack => if !held && pressure >= o.pad_on_threshold && velocity
                            == Some(velocity_spec(pressure) as u8) {
                            Some(true)
                        } else {
                            None
                        },
                        PadPhase::Pressure => if held && velocity is None {
                            Some(true)
                        } else {
                            None
                        },
                        PadPhase::Release => if held && pressure < o.pad_off_threshold
                            && velocity is None {
                            Some(false)
                        } else {
                            None
                        },
                    }
                },
                _ => Some(held),
            },
        }
    }
}

/// The pressure of pad `pad` in its last sample among `ss`, or the tracked
/// one before them.
pub open spec fn last_pressure(t: PadTrack, ss: Seq<PadSample>, pad: u8) -> u16
    decreases ss.len(),
{
    if ss.len() == 0 {
        t.pressures[pad as int]
    } else if ss.last().pad == pad {
        ss.last().pressure
    } else {
        last_pressure(t, ss.drop_last(), pad)
    }
}

proof fn lemma_last_pressure(t: PadTrack, ss: Seq<PadSample>, o: OpenOptions, pad: u8)
    requires
        pad < 16,
        t.on.len() == 16,
        t.pressures.len() == 16,
        t.peak.len() == 16,
        forall|k: int| 0 <= k < ss.len() ==> #[trigger] ss[k].pad < 16,
    ensures
        pad_steps(t, ss, o).0.pressures[pad as int] == last_pressure(t, ss, pad),
    decreases ss.len(),
{
    if ss.len() > 0 {
        let front = ss.drop_last();
        assert forall|k: int| 0 <= k < front.len() implies #[trigger] front[k].pad < 16 by {
            assert(front[k] == ss[k]);
        }
        lemma_last_pressure(t, front, o, pad);
        lemma_pad_steps_len(t, front, o);
        assert(ss[ss.len() - 1] == ss.last());
    }
}

/// The pad events of a sample sequence, per pad, with hysteresis on: they
/// follow `(Attack Pressure* Release)*` from the pad's held state, each
/// `Attack` at or above the on threshold with `Some` of its velocity, each
/// `Release` below the off threshold, `Pressure` and `Release` without
/// velocity, ending in the held state that the tracking keeps; and the
/// event of a sample is a `Pressure` only when the pressure moved by at
/// least the step from the pad's previous sample.
pub proof fn pad_events_follow_phrases(t: PadTrack, ss: Seq<PadSample>, o: OpenOptions, pad: u8)
    requires
        !o.raw_pad_stream,
        pad < 16,
        t.on.len() == 16,
        t.pressures.len() == 16,
        t.peak.len() == 16,
        forall|k: int| 0 <= k < ss.len() ==> #[trigger] ss[k].pad < 16,
    ensures
        pad_phrase(t.on[pad as int], pad_steps(t, ss, o).1, pad, o) == Some(
            pad_steps(t, ss, o).0.on[pad as int],
        ),
        forall|k: int|
            0 <= k < ss.len() && ss[k].pad == pad && (#[trigger] pad_step(
                pad_steps(t, ss.take(k), o).0,
                ss[k],
                o,
            )).1 == seq![
                Event::Pad {
                    pad,
                    pressure: ss[k].pressure,
                    velocity: None,
                    phase: PadPhase::Pressure,
                },
            ] ==> pressure_diff(ss[k].pressure, last_pressure(t, ss.take(k), pad))
                >= o.pad_pressure_step,
    decreases ss.len(),
{
    if ss.len() > 0 {
        let front = ss.drop_last();
        assert forall|k: int| 0 <= k < front.len() implies #[trigger] front[k].pad < 16 by {
            assert(front[k] == ss[k]);
        }
        pad_events_follow_phrases(t, front, o, pad);
        lemma_pad_steps_len(t, front, o);
        let (t1, e1) = pad_steps(t, front, o);
        let s = ss.last();
        assert(ss[ss.len() - 1] == s);
        let (t2, e2) = pad_step(t1, s, o);
        assert(pad_steps(t, ss, o) == (t2, e1 + e2));
        if e2.len() == 0 {
            assert(e1 + e2 =~= e1);
        } else {
            assert(e2.len() == 1);
            assert((e1 + e2).drop_last() =~= e1);
            assert((e1 + e2).last() == e2[0]);
        }
        assert forall|k: int|
            0 <= k < ss.len() && ss[k].pad == pad && (#[trigger] pad_step(
                pad_steps(t, ss.take(k), o).0,
                ss[k],
                o,
            )).1 == seq![
                Event::Pad {
                    pad,
                    pressure: ss[k].pressure,
                    velocity: None,
                    phase: PadPhase::Pressure,
                },
            ] implies pressure_diff(ss[k].pressure, last_pressure(t, ss.take(k), pad))
            >= o.pad_pressure_step by {
            let pre = ss.take(k);
            assert forall|j: int| 0 <= j < pre.len() implies #[trigger] pre[j].pad < 16 by {
                assert(pre[j] == ss[j]);
            }
            lemma_last_pressure(t, pre, o, pad);
            lemma_pad_steps_len(t, pre, o);
            let tk = pad_steps(t, pre, o).0;
            let r = pad_step(tk, ss[k], o).1;
            let want = Event::Pad {
                pad,
                pressure: ss[k].pressure,
                velocity: None,
                phase: PadPhase::Pressure,
            };
            assert(r[0] == want);
            let i = pad as int;
            let p = ss[k].pressure;
            if !tk.on[i] && p >= o.pad_on_threshold {
                assert(r[0]->phase == PadPhase::Attack);
            } else if tk.on[i] && p < o.pad_off_threshold {
                assert(r[0]->phase == PadPhase::Release);
            } else if !tk.on[i] {
                assert(r.len() == 0);
            } else if pressure_diff(p, tk.pressures[i]) < o.pad_pressure_step {
                assert(r.len() == 0);
            }
        }
    }
}

/// The reading of knob `k` in the controls report `c`.
pub open spec fn knob_reading(c: ControlsReport, k: AnalogKnob) -> u16 {
    match k {
        AnalogKnob::MicGain => c.mic_gain,
        AnalogKnob::Headphones => c.headphones,
        AnalogKnob::MasterVolume => c.master_vol,
    }
}

/// The reading of knob `k` before `c`: that of the previous report, 0
/// before the first one.
pub open spec fn knob_before(p: Option<ControlsReport>, k: AnalogKnob) -> u16 {
    match p {
        Some(c) => knob_reading(c, k),
        None => 0,
    }
}

proof fn lemma_macro_events_not_analog(p: Option<ControlsReport>, c: ControlsReport, n: int)
    ensures
        forall|k: int|
            0 <= k < macro_events(p, c, n).len() ==> (#[trigger] macro_events(p, c, n)[k] is MacroEncoder),
    decreases n,
{
    if n > 0 {
        lemma_macro_events_not_analog(p, c, n - 1);
        let a = macro_events(p, c, n - 1);
        assert forall|k: int| 0 <= k < macro_events(p, c, n).len() implies #[trigger] macro_events(
            p,
            c,
            n,
        )[k] is MacroEncoder by {
            if k < a.len() {
                assert(macro_events(p, c, n)[k] == a[k]);
            }
        }
    }
}

proof fn lemma_tail_analog(p: Option<ControlsReport>, c: ControlsReport)
    ensures
        forall|k: int|
            0 <= k < tail_events(p, c).len() && ((#[trigger] tail_events(p, c)[k]) is Analog)
                ==> tail_events(p, c)[k]->value == knob_reading(c, tail_events(p, c)[k]->which)
                && knob_before(p, tail_events(p, c)[k]->which) != tail_events(p, c)[k]->value,
        forall|which: AnalogKnob|
            knob_before(p, which) != knob_reading(c, which) ==> exists|k: int|
                0 <= k < tail_events(p, c).len() && #[trigger] tail_events(p, c)[k]
                    == (Event::Analog { which, value: knob_reading(c, which) }),
{
    let t = tail_events(p, c);
    let md = encoder_delta_spec(prev_master(p), c.master);
    let t0: Seq<Event> = if md != 0 {
        seq![Event::MasterEncoder { delta: md as i16, absolute: c.master }]
    } else {
        seq![]
    };
    let t1: Seq<Event> = match (prev_strip(p), c.touch_strip) {
        (_, Some((pos, prs))) => seq![Event::TouchStrip { position: pos, pressure: prs }],
        (Some(_), None) => seq![Event::TouchStripReleased],
        _ => seq![],
    };
    let am: Seq<Event> = if prev_mic(p) != c.mic_gain {
        seq![Event::Analog { which: AnalogKnob::MicGain, value: c.mic_gain }]
    } else {
        seq![]
    };
    let ah: Seq<Event> = if prev_headphones(p) != c.headphones {
        seq![Event::Analog { which: AnalogKnob::Headphones, value: c.headphones }]
    } else {
        seq![]
    };
    let av: Seq<Event> = if prev_master_vol(p) != c.master_vol {
        seq![Event::Analog { which: AnalogKnob::MasterVolume, value: c.master_vol }]
    } else {
        seq![]
    };
    let pre = t0 + t1;
    assert(t =~= pre + am + ah + av);
    assert forall|k: int|
        0 <= k < t.len() && ((#[trigger] t[k]) is Analog) implies t[k]->value == knob_reading(
        c,
        t[k]->which,
    ) && knob_before(p, t[k]->which) != t[k]->value by {
        if k < pre.len() {
            if k < t0.len() {
                assert(t[k] == t0[k]);
            } else {
                assert(t[k] == t1[k - t0.len()]);
            }
        } else if k < pre.len() + am.len() {
            assert(t[k] == am[k - pre.len()]);
        } else if k < pre.len() + am.len() + ah.len() {
            assert(t[k] == ah[k - pre.len() - am.len()]);
        } else {
            assert(t[k] == av[k - pre.len() - am.len() - ah.len()]);
        }
    }
    assert forall|which: AnalogKnob| knob_before(p, which) != knob_reading(c, which) implies exists|
        k: int,
    | 0 <= k < t.len() && #[trigger] t[k] == (Event::Analog { which, value: knob_reading(c, which) }) by {
        match which {
            AnalogKnob::MicGain => {
                assert(t[pre.len() as int] == am[0]);
            },
            AnalogKnob::Headphones => {
                assert(t[(pre.len() + am.len()) as int] == ah[0]);
            },
            AnalogKnob::MasterVolume => {
                assert(t[(pre.len() + am.len() + ah.len()) as int] == av[0]);
            },
        }
    }
}

/// Analog knob events name the knob whose reading they carry: an
/// `Analog { which, value }` event of a controls report carries the new
/// reading of knob `which` in that report, which differs from its reading
/// before; and every knob whose reading changed gets exactly such an event.
pub proof fn analog_events_name_their_knob(p: Option<ControlsReport>, c: ControlsReport)
    ensures
        forall|k: int|
            0 <= k < controls_events(p, c).len() && ((#[trigger] controls_events(p, c)[k]) is Analog)
                ==> controls_events(p, c)[k]->value == knob_reading(c, controls_events(p, c)[k]->which)
                && knob_before(p, controls_events(p, c)[k]->which) != controls_events(p, c)[k]->value,
        forall|which: AnalogKnob|
            knob_before(p, which) != knob_reading(c, which) ==> exists|k: int|
                0 <= k < controls_events(p, c).len() && #[trigger] controls_events(p, c)[k]
                    == (Event::Analog { which, value: knob_reading(c, which) }),
{
    let b = button_events(diff_upto(c.buttons, prev_buttons(p), 64));
    let m = macro_events(p, c, 8);
    let t = tail_events(p, c);
    let all = controls_events(p, c);
    lemma_macro_events_not_analog(p, c, 8);
    lemma_tail_analog(p, c);
    let head = b + m;
    assert(all == head + t);
    assert forall|k: int| 0 <= k < head.len() implies !((#[trigger] head[k]) is Analog) by {
        if k < b.len() {
            assert(head[k] == b[k]);
        } else {
            assert(head[k] == m[k - b.len()]);
        }
    }
    assert forall|k: int|
        0 <= k < all.len() && ((#[trigger] all[k]) is Analog) implies all[k]->value == knob_reading(
        c,
        all[k]->which,
    ) && knob_before(p, all[k]->which) != all[k]->value by {
        if k < head.len() {
            assert(all[k] == head[k]);
        } else {
            assert(all[k] == t[k - head.len()]);
        }
    }
    assert forall|which: AnalogKnob| knob_before(p, which) != knob_reading(c, which) implies exists|
        k: int,
    | 0 <= k < all.len() && #[trigger] all[k] == (Event::Analog { which, value: knob_reading(c, which) }) by {
        let j = choose|j: int|
            0 <= j < t.len() && #[trigger] t[j] == (Event::Analog { which, value: knob_reading(c, which) });
        assert(all[head.len() + j] == t[j]);
    }
}

} // verus!
