use openmk3::device::{pressure_to_velocity, DiffState, OpenOptions};
use openmk3::event::{AnalogKnob, Event, PadPhase};

fn controls(buttons: u64, macro3: u16, master: u16, strip: Option<(u16, u16)>, mic: u16) -> Vec<u8> {
    let mut b = vec![0u8; 37];
    b[0] = 0x01;
    b[1..9].copy_from_slice(&buttons.to_le_bytes());
    b[9 + 6] = (macro3 & 0xff) as u8;
    b[9 + 7] = (macro3 >> 8) as u8;
    b[25] = (master & 0xff) as u8;
    b[26] = (master >> 8) as u8;
    if let Some((p, pr)) = strip {
        b[27] = (p & 0xff) as u8;
        b[28] = (p >> 8) as u8;
        b[29] = (pr & 0xff) as u8;
        b[30] = (pr >> 8) as u8;
    }
    b[31] = (mic & 0xff) as u8;
    b[32] = (mic >> 8) as u8;
    b
}

fn pads(samples: &[(u8, u16)]) -> Vec<u8> {
    let mut b = vec![0x02];
    for &(pad, p) in samples {
        b.extend_from_slice(&[pad, (p & 0xff) as u8, (p >> 8) as u8]);
    }
    b
}

#[test]
fn velocity_curve_endpoints() {
    assert_eq!(pressure_to_velocity(0), 0);
    assert_eq!(pressure_to_velocity(0x4000), 0);
    assert_eq!(pressure_to_velocity(0x4FFD), 127);
    assert_eq!(pressure_to_velocity(0xFFFF), 127);
    assert_eq!(pressure_to_velocity(0x4000 + 0x0FFD / 2), 63);
}

#[test]
fn controls_report_emits_edges_only() {
    let mut s = DiffState::new();
    let o = OpenOptions::default();
    let ev = s.handle_frame(&controls(0b101, 0x010, 0, None, 0), &o);
    assert_eq!(
        ev,
        vec![
            Event::Button { bit: 0, pressed: true },
            Event::Button { bit: 2, pressed: true },
            Event::MacroEncoder { index: 3, delta: 16, absolute: 0x010 },
        ]
    );
    let ev = s.handle_frame(&controls(0b100, 0x3ff, 5, Some((100, 9)), 7), &o);
    assert_eq!(
        ev,
        vec![
            Event::Button { bit: 0, pressed: false },
            Event::MacroEncoder { index: 3, delta: -17, absolute: 0x3ff },
            Event::MasterEncoder { delta: 5, absolute: 5 },
            Event::TouchStrip { position: 100, pressure: 9 },
            Event::Analog { which: AnalogKnob::MicGain, value: 7 },
        ]
    );
    let ev = s.handle_frame(&controls(0b100, 0x3ff, 5, None, 7), &o);
    assert_eq!(ev, vec![Event::TouchStripReleased]);
    assert!(s.handle_frame(&controls(0b100, 0x3ff, 5, None, 7), &o).is_empty());
}

#[test]
fn pads_attack_press_and_release_with_hysteresis() {
    let mut s = DiffState::new();
    let o = OpenOptions::default();
    let ev = s.handle_frame(&pads(&[(4, 0x4008)]), &o);
    assert!(ev.is_empty());
    let ev = s.handle_frame(&pads(&[(4, 0x4800)]), &o);
    assert_eq!(
        ev,
        vec![Event::Pad { pad: 4, pressure: 0x4800, velocity: Some(pressure_to_velocity(0x4800)), phase: PadPhase::Attack }]
    );
    // Jitter below the step is filtered; a larger change is reported.
    assert!(s.handle_frame(&pads(&[(4, 0x4802)]), &o).is_empty());
    assert_eq!(
        s.handle_frame(&pads(&[(4, 0x4810)]), &o),
        vec![Event::Pad { pad: 4, pressure: 0x4810, velocity: None, phase: PadPhase::Pressure }]
    );
    // A second attack needs a release first.
    assert!(!s.handle_frame(&pads(&[(4, 0x4006)]), &o).is_empty());
    assert_eq!(
        s.handle_frame(&pads(&[(4, 0x4000)]), &o),
        vec![Event::Pad { pad: 4, pressure: 0x4000, velocity: None, phase: PadPhase::Release }]
    );
    assert!(s.handle_frame(&pads(&[(4, 0x4004)]), &o).is_empty());
}

#[test]
fn raw_pad_stream_reports_every_sample() {
    let mut s = DiffState::new();
    let o = OpenOptions { raw_pad_stream: true, ..OpenOptions::default() };
    let ev = s.handle_frame(&pads(&[(1, 5), (1, 5)]), &o);
    assert_eq!(ev.len(), 2);
    assert!(ev.iter().all(|e| matches!(e, Event::Pad { pad: 1, pressure: 5, velocity: None, phase: PadPhase::Pressure })));
}

#[test]
fn unparsable_frames_are_ignored() {
    let mut s = DiffState::new();
    let o = OpenOptions::default();
    assert!(s.handle_frame(&[], &o).is_empty());
    assert!(s.handle_frame(&[0x01, 0, 0], &o).is_empty());
    assert!(s.handle_frame(&[0x02, 16, 0, 0x40], &o).is_empty());
    assert!(s.handle_frame(&[0x77], &o).is_empty());
    assert!(s.controls.is_none());
}

#[test]
fn pads_release_only_below_the_off_threshold() {
    let mut s = DiffState::new();
    let o = OpenOptions::default();
    assert_eq!(s.handle_frame(&pads(&[(2, 0x4010)]), &o).len(), 1);
    // Exactly at the off threshold the pad stays held (a pressure change only).
    assert_eq!(
        s.handle_frame(&pads(&[(2, 0x4005)]), &o),
        vec![Event::Pad { pad: 2, pressure: 0x4005, velocity: None, phase: PadPhase::Pressure }]
    );
    assert_eq!(
        s.handle_frame(&pads(&[(2, 0x4004)]), &o),
        vec![Event::Pad { pad: 2, pressure: 0x4004, velocity: None, phase: PadPhase::Release }]
    );
}
