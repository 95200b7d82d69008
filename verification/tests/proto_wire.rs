use openmk3::proto::display::{
    encode_blit_cmd, encode_header, encode_solid_frame, pack_rgb565_be, Rect, DISPLAY_CMD_LEN,
    DISPLAY_HEADER_LEN,
};
use openmk3::proto::hid_in::{parse, ControlsReport, InReport, PadSample};
use openmk3::proto::hid_out::{encode_button_leds, encode_pad_leds, BUTTON_LED_SLOTS, PAD_LED_PAYLOAD};
use openmk3::proto::types::{
    DisplayId, ProtoError, Rgb, PAD_COUNT, REPORT_IN_CONTROLS, REPORT_IN_PADS,
    REPORT_OUT_BUTTON_LEDS, REPORT_OUT_PAD_LEDS, TOUCHSTRIP_LED_COUNT,
};

#[test]
fn header_layout_matches_spec() {
    let mut buf = [0u8; DISPLAY_HEADER_LEN];
    encode_header(DisplayId::Right, Rect { x: 0x10, y: 0x20, w: 480, h: 272 }, &mut buf).unwrap();
    assert_eq!(buf[0], 0x84);
    assert_eq!(buf[1], 0x00);
    assert_eq!(buf[2], 1);
    assert_eq!(buf[3], 0x60);
    assert_eq!(&buf[16..18], &[0x00, 0x10]);
    assert_eq!(&buf[18..20], &[0x00, 0x20]);
    assert_eq!(&buf[20..22], &[0x01, 0xe0]);
    assert_eq!(&buf[22..24], &[0x01, 0x10]);
    for (i, &b) in buf.iter().enumerate() {
        if ![0, 1, 2, 3, 17, 19, 20, 21, 22, 23].contains(&i) {
            assert_eq!(b, 0, "byte {i} not zero: 0x{b:02x}");
        }
    }
}

#[test]
fn solid_frame_uses_single_repeat() {
    let mut buf = [0u8; DISPLAY_HEADER_LEN + 3 * DISPLAY_CMD_LEN];
    let n = encode_solid_frame(DisplayId::Left, Rgb::new(0, 0xff, 0), &mut buf).unwrap();
    assert_eq!(n, buf.len());
    assert_eq!(buf[DISPLAY_HEADER_LEN], 0x01);
    assert_eq!(&buf[DISPLAY_HEADER_LEN + 1..DISPLAY_HEADER_LEN + 4], &[0x00, 0xff, 0x00]);
    assert_eq!(&buf[DISPLAY_HEADER_LEN + 4..DISPLAY_HEADER_LEN + 8], &[0x07, 0xe0, 0x07, 0xe0]);
    assert_eq!(buf[DISPLAY_HEADER_LEN + DISPLAY_CMD_LEN], 0x03);
    assert_eq!(buf[DISPLAY_HEADER_LEN + 2 * DISPLAY_CMD_LEN], 0x40);
}

#[test]
fn blit_cmd_encodes_count() {
    let mut out = [0u8; DISPLAY_CMD_LEN];
    encode_blit_cmd(0xabcdef, &mut out).unwrap();
    assert_eq!(out, [0x00, 0xab, 0xcd, 0xef, 0, 0, 0, 0]);
}

#[test]
fn pack_rgb565_is_big_endian() {
    let mut out = [0u8; 6];
    pack_rgb565_be(&[0x1234, 0xabcd, 0x0001], &mut out);
    assert_eq!(out, [0x12, 0x34, 0xab, 0xcd, 0x00, 0x01]);
}

#[test]
fn header_rejects_short_output() {
    let mut buf = [0u8; DISPLAY_HEADER_LEN - 1];
    assert_eq!(
        encode_header(DisplayId::Left, Rect::full(), &mut buf),
        Err(ProtoError::OutputTooSmall { need: DISPLAY_HEADER_LEN, have: DISPLAY_HEADER_LEN - 1 })
    );
}

#[test]
fn rect_pixel_count_is_area() {
    assert_eq!(Rect { x: 3, y: 4, w: 480, h: 272 }.pixel_count(), 130_560);
    assert_eq!(Rect { x: 0, y: 0, w: 0, h: 10 }.pixel_count(), 0);
}

#[test]
fn parses_controls_report() {
    let mut buf = [0u8; 48];
    buf[0] = REPORT_IN_CONTROLS;
    buf[1] = 0b0010_0001;
    let put16 = |b: &mut [u8], off: usize, v: u16| {
        b[off] = (v & 0xff) as u8;
        b[off + 1] = (v >> 8) as u8;
    };
    put16(&mut buf, 9 + 3 * 2, 0x123);
    put16(&mut buf, 25, 0x200);
    put16(&mut buf, 27, 0x0ff);
    put16(&mut buf, 29, 0x010);
    put16(&mut buf, 31, 0x111);
    put16(&mut buf, 33, 0x222);
    put16(&mut buf, 35, 0x333);

    let r = parse(&buf).unwrap();
    let c = match r {
        InReport::Controls(c) => c,
        _ => panic!(),
    };
    assert_eq!(c.buttons & 0x21, 0x21);
    assert_eq!(c.macros[3], 0x123);
    assert_eq!(c.master, 0x200);
    assert_eq!(c.touch_strip, Some((0x0ff, 0x010)));
    assert_eq!(c.mic_gain, 0x111);
    assert_eq!(c.headphones, 0x222);
    assert_eq!(c.master_vol, 0x333);
}

#[test]
fn parses_pads_report_and_rejects_bad_index() {
    let mut buf = vec![REPORT_IN_PADS];
    buf.extend_from_slice(&[5, 0x34, 0x42]);
    buf.extend_from_slice(&[0, 0, 0]);
    buf.extend_from_slice(&[15, 0x00, 0x40]);
    let r = parse(&buf).unwrap();
    let p = match r {
        InReport::Pads(p) => p,
        _ => panic!(),
    };
    assert_eq!(p.samples.len(), 2);
    assert_eq!(p.samples[0], PadSample { pad: 5, pressure: 0x4234 });
    assert_eq!(p.samples[1], PadSample { pad: 15, pressure: 0x4000 });

    let bad = [REPORT_IN_PADS, 16, 0x00, 0x40];
    assert!(parse(&bad).is_err());
}

#[test]
fn encoder_delta_wraps_both_ways() {
    assert_eq!(ControlsReport::encoder_delta(0x3ff, 0x001), 2);
    assert_eq!(ControlsReport::encoder_delta(0x001, 0x3ff), -2);
    assert_eq!(ControlsReport::encoder_delta(0x100, 0x100), 0);
    assert_eq!(ControlsReport::encoder_delta(0x100, 0x110), 0x10);
}

#[test]
fn encoder_delta_half_turn_and_return() {
    // A half turn reads +512 from either side; any other turn is undone
    // by the delta back.
    assert_eq!(ControlsReport::encoder_delta(0, 512), 512);
    assert_eq!(ControlsReport::encoder_delta(512, 0), 512);
    assert_eq!(ControlsReport::encoder_delta(10, 600), -434);
    assert_eq!(ControlsReport::encoder_delta(600, 10), 434);
}

#[test]
fn button_diff_reports_only_changed() {
    let c = ControlsReport { buttons: 0b0110, ..Default::default() };
    let diff: Vec<_> = c.buttons_diff(0b0101);
    assert_eq!(diff, vec![(0, false), (1, true)]);
}

#[test]
fn button_diff_of_equal_masks_is_empty() {
    let c = ControlsReport { buttons: 0xdead_beef_0000_0001, ..Default::default() };
    assert!(c.buttons_diff(0xdead_beef_0000_0001).is_empty());
    let all: Vec<_> = ControlsReport { buttons: u64::MAX, ..Default::default() }.buttons_diff(0);
    assert_eq!(all.len(), 64);
    assert_eq!(all[63], (63, true));
}

#[test]
fn parse_reports_short_controls_and_unknown_id() {
    assert_eq!(parse(&[REPORT_IN_CONTROLS, 0, 0]), Err(ProtoError::Short { need: 37, have: 3 }));
    assert_eq!(parse(&[0x99]), Err(ProtoError::UnknownReport(0x99)));
    assert_eq!(parse(&[REPORT_IN_PADS, 16, 0, 0]), Err(ProtoError::BadPad(16)));
}

#[test]
fn button_leds_write_report_id_and_payload() {
    let mut vals = [0u8; BUTTON_LED_SLOTS];
    vals[0] = 0x7f;
    vals[10] = 0x40;
    let mut out = [0u8; 1 + BUTTON_LED_SLOTS];
    let n = encode_button_leds(&vals, &mut out).unwrap();
    assert_eq!(n, out.len());
    assert_eq!(out[0], REPORT_OUT_BUTTON_LEDS);
    assert_eq!(out[1], 0x7f);
    assert_eq!(out[11], 0x40);
}

#[test]
fn pad_leds_layout_is_strip_then_pads() {
    let strip = core::array::from_fn::<Rgb, TOUCHSTRIP_LED_COUNT, _>(|_| Rgb::black());
    let pads = core::array::from_fn::<Rgb, PAD_COUNT, _>(|i| Rgb::new(i as u8, 0, 0));
    let mut out = [0u8; 1 + PAD_LED_PAYLOAD];
    let n = encode_pad_leds(&strip, &pads, &mut out).unwrap();
    assert_eq!(n, out.len());
    assert_eq!(out[0], REPORT_OUT_PAD_LEDS);
    let first_pad_off = 1 + TOUCHSTRIP_LED_COUNT * 3;
    assert_eq!(out[first_pad_off], 0);
    assert_eq!(out[first_pad_off + 3], 1);
    assert_eq!(out[first_pad_off + 6], 2);
}

#[test]
fn output_too_small_errors() {
    let vals = [0u8; BUTTON_LED_SLOTS];
    let mut tiny = [0u8; 4];
    assert!(matches!(
        encode_button_leds(&vals, &mut tiny),
        Err(ProtoError::OutputTooSmall { .. })
    ));
}

#[test]
fn rgb565_red_is_top_bits() {
    assert_eq!(Rgb::new(0xff, 0, 0).to_rgb565(), 0xf800);
    assert_eq!(Rgb::new(0, 0xff, 0).to_rgb565(), 0x07e0);
    assert_eq!(Rgb::new(0, 0, 0xff).to_rgb565(), 0x001f);
    assert_eq!(Rgb::black().to_rgb565(), 0x0000);
    assert_eq!(Rgb::white().to_rgb565(), 0xffff);
}

#[test]
fn rgb565_drops_low_bits() {
    // 0x87 = 1000_0111: red keeps 10000, green keeps 100001, blue 10000.
    assert_eq!(Rgb::new(0x87, 0x87, 0x87).to_rgb565(), (0x10 << 11) | (0x21 << 5) | 0x10);
}

#[test]
fn display_wire_ids() {
    assert_eq!(DisplayId::Left.wire_id(), 0);
    assert_eq!(DisplayId::Right.wire_id(), 1);
}
