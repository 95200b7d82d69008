use openmk3::event::Event;
use openmk3::index::query::PresetRow;
use openmk3::proto::types::{DisplayId, Rgb};
use openmk3::ui::browse::{BrowseState, FacetLevel};
use openmk3::display::framebuffer::Framebuffer;
use openmk3::ui::font::glyph;
use openmk3::ui::render::{DrawOp, PixelSink, ROW_HEIGHT, STATUS_HEIGHT};

fn row(id: i64, name: &str, vendor: &str) -> PresetRow {
    PresetRow {
        id,
        path: format!("/lib/{name}.nksf"),
        name: name.to_string(),
        vendor: vendor.to_string(),
        plugin_ref: "vst3:00000001000000020000000300000004".to_string(),
        bank_chain: "Factory / Leads".to_string(),
    }
}

fn state_with_rows(n: usize) -> BrowseState {
    let mut s = BrowseState::default();
    s.set_rows((0..n).map(|i| row(i as i64, &format!("P{i}"), "V")).collect());
    s
}

#[test]
fn breadcrumb_lists_set_filters_in_order() {
    let mut s = BrowseState::default();
    assert_eq!(s.breadcrumb(), "All");
    s.type_filter = Some("Synth".into());
    s.vendor_filter = Some("NI".into());
    s.mode_filter = Some("Bright".into());
    assert_eq!(s.breadcrumb(), "All / NI / Synth / Bright");
    s.subtype_filter = Some("Lead".into());
    s.facet = Some(FacetLevel::Mode);
    assert_eq!(s.breadcrumb(), "All / NI / Synth / Lead / Bright");
}

#[test]
fn cursor_stays_within_rows() {
    let mut s = state_with_rows(3);
    assert_eq!(s.selected().unwrap().name, "P0");
    s.cursor_up();
    assert_eq!(s.cursor, 0);
    s.cursor_down();
    s.cursor_down();
    s.cursor_down();
    assert_eq!(s.cursor, 2);
    assert_eq!(s.selected().unwrap().id, 2);
    s.set_rows(vec![row(7, "Only", "")]);
    assert_eq!(s.cursor, 0);
    s.cursor_down();
    assert_eq!(s.cursor, 0);
    s.set_rows(Vec::new());
    assert!(s.selected().is_none());
    s.cursor_down();
    assert_eq!(s.cursor, 0);
}

#[test]
fn rows_are_found_by_preset_id() {
    let mut s = state_with_rows(3);
    assert_eq!(s.find_row(2).unwrap().name, "P2");
    assert!(s.find_row(9).is_none());
    s.set_rows(vec![row(5, "first", ""), row(5, "second", "")]);
    assert_eq!(s.find_row(5).unwrap().name, "first");
}

#[test]
fn macro_two_scrolls_by_the_turn() {
    let mut s = state_with_rows(10);
    assert!(s.apply_nav(&Event::MacroEncoder { index: 2, delta: 3, absolute: 0 }));
    assert_eq!(s.cursor, 3);
    assert!(s.apply_nav(&Event::MacroEncoder { index: 2, delta: 40, absolute: 0 }));
    assert_eq!(s.cursor, 9);
    assert!(s.apply_nav(&Event::MacroEncoder { index: 2, delta: -4, absolute: 0 }));
    assert_eq!(s.cursor, 5);
    assert!(s.apply_nav(&Event::MacroEncoder { index: 2, delta: -100, absolute: 0 }));
    assert_eq!(s.cursor, 0);
}

#[test]
fn macro_zero_steps_facets_round() {
    let mut s = BrowseState::default();
    assert!(!s.apply_nav(&Event::MacroEncoder { index: 0, delta: 1, absolute: 0 }));
    s.facet_values = vec!["Synth".into(), "Bass".into(), "Lead".into()];
    assert!(s.apply_nav(&Event::MacroEncoder { index: 0, delta: 5, absolute: 0 }));
    assert_eq!(s.facet_cursor, 1);
    assert!(s.apply_nav(&Event::MacroEncoder { index: 0, delta: -2, absolute: 0 }));
    assert_eq!(s.facet_cursor, 0);
    assert!(s.apply_nav(&Event::MacroEncoder { index: 0, delta: -1, absolute: 0 }));
    assert_eq!(s.facet_cursor, 2);
    assert!(s.apply_nav(&Event::MacroEncoder { index: 0, delta: 1, absolute: 0 }));
    assert_eq!(s.facet_cursor, 0);
    assert!(!s.apply_nav(&Event::MacroEncoder { index: 1, delta: 1, absolute: 0 }));
    assert!(!s.apply_nav(&Event::Button { bit: 3, pressed: true }));
    assert_eq!(s.facet_cursor, 0);
}

#[test]
fn left_screen_draws_header_facets_and_count() {
    let mut s = state_with_rows(2);
    s.facet_values = vec!["Synth".into(), "Bass".into()];
    s.facet_cursor = 1;
    let ops = s.render_left(480, 272);
    assert_eq!(ops[0], DrawOp::Fill { x: 0, y: 0, w: 480, h: 272, color: Rgb::new(0x05, 0x08, 0x12) });
    assert_eq!(ops[2], DrawOp::Text { x: 8, y: 8, text: "All".into(), color: Rgb::new(0xe0, 0xe0, 0xe0) });
    // Facet 0 is plain, facet 1 is highlighted.
    assert_eq!(ops[3], DrawOp::Text { x: 12, y: 36, text: "Synth".into(), color: Rgb::new(0xe0, 0xe0, 0xe0) });
    assert_eq!(ops[4], DrawOp::Fill { x: 0, y: 58, w: 480, h: ROW_HEIGHT, color: Rgb::new(0x1c, 0x22, 0x30) });
    assert_eq!(ops[6], DrawOp::Text { x: 12, y: 64, text: "Bass".into(), color: Rgb::new(0xff, 0x80, 0x20) });
    let sy = 272 - STATUS_HEIGHT;
    assert_eq!(ops[ops.len() - 1], DrawOp::Text { x: 8, y: sy + 8, text: "2 presets".into(), color: Rgb::new(0x90, 0xa0, 0xc0) });
    assert_eq!(ops.len(), 9);
}

#[test]
fn left_screen_stops_at_the_status_strip() {
    let mut s = BrowseState::default();
    s.facet_values = (0..50).map(|i| format!("F{i}")).collect();
    let ops = s.render_left(480, 272);
    let texts = ops.iter().filter(|o| matches!(o, DrawOp::Text { .. })).count();
    // Rows start at y = 32 and need 28 pixels above the strip at 248.
    assert_eq!(texts, 1 + 7 + 1);
}

#[test]
fn right_screen_centres_the_cursor_and_captions_the_selection() {
    let mut s = state_with_rows(20);
    s.cursor = 12;
    let ops = s.render_right(480, 272);
    // (272 - 24) / 28 = 8 rows, one kept free: 7 rows from 12 - 3 = 9.
    let names: Vec<String> = ops
        .iter()
        .filter_map(|o| match o {
            DrawOp::Text { text, y, .. } if *y < 248 && text.starts_with('P') => Some(text.clone()),
            _ => None,
        })
        .collect();
    assert_eq!(names, vec!["P9", "P10", "P11", "P12", "P13", "P14", "P15"]);
    assert_eq!(ops[ops.len() - 1], DrawOp::Text { x: 8, y: 256, text: "V".into(), color: Rgb::new(0x90, 0xa0, 0xc0) });

    let mut t = BrowseState::default();
    t.set_rows(vec![row(1, "NoVendor", "")]);
    let ops = t.render_right(480, 272);
    assert_eq!(
        ops[ops.len() - 1],
        DrawOp::Text { x: 8, y: 256, text: "vst3:00000001000000020000000300000004".into(), color: Rgb::new(0x90, 0xa0, 0xc0) }
    );
}

struct Canvas {
    w: u16,
    h: u16,
    px: Vec<Option<Rgb>>,
}

impl PixelSink for Canvas {
    fn width(&self) -> u16 {
        self.w
    }
    fn height(&self) -> u16 {
        self.h
    }
    fn set(&mut self, x: u16, y: u16, c: Rgb) {
        if x < self.w && y < self.h {
            self.px[y as usize * self.w as usize + x as usize] = Some(c);
        }
    }
}

#[test]
fn render_paints_the_sink() {
    let mut s = state_with_rows(1);
    s.facet_values = vec!["A".into()];
    let mut c = Canvas { w: 480, h: 272, px: vec![None; 480 * 272] };
    s.render(DisplayId::Left, &mut c);
    let bg = Some(Rgb::new(0x05, 0x08, 0x12));
    assert_eq!(c.px[100 * 480 + 300], bg);
    // The first glyph column of "A" (0x7e) at (12, 36): row 0 blank, rows 1 to 6 lit.
    assert_ne!(c.px[36 * 480 + 12], Some(Rgb::new(0xff, 0x80, 0x20)));
    assert_eq!(c.px[37 * 480 + 12], Some(Rgb::new(0xff, 0x80, 0x20)));
    assert_eq!(c.px[42 * 480 + 12], Some(Rgb::new(0xff, 0x80, 0x20)));
    // A sink lower than the status strip is left alone.
    let mut tiny = Canvas { w: 10, h: 10, px: vec![None; 100] };
    s.render(DisplayId::Right, &mut tiny);
    assert!(tiny.px.iter().all(|p| p.is_none()));
}

#[test]
fn draw_text_stops_at_the_right_edge() {
    let mut c = Canvas { w: 20, h: 10, px: vec![None; 200] };
    let end = c.draw_text(2, 0, "abcdef", Rgb::white());
    assert_eq!(end, 20);
    let mut c2 = Canvas { w: 20, h: 10, px: vec![None; 200] };
    assert_eq!(c2.draw_text(0, 0, "abc", Rgb::white()), 18);
}

#[test]
fn render_draws_into_a_framebuffer() {
    let mut s = state_with_rows(1);
    s.facet_values = vec!["A".into()];
    let mut fb = Framebuffer::new();
    s.render(DisplayId::Left, &mut fb);
    // Background 0x050812 packs to 0x0042; the lit column of "A" shows 0xff8020 as 0xfc04.
    assert_eq!(fb.pixels()[100 * 480 + 300], 0x0042);
    assert_eq!(fb.pixels()[37 * 480 + 12], 0xfc04);
    assert!(fb.is_dirty());
}

#[test]
fn glyphs_come_from_the_font_table() {
    assert_eq!(glyph('A'), [0x7e, 0x11, 0x11, 0x11, 0x7e, 0]);
    assert_eq!(glyph(' '), [0; 6]);
    assert_eq!(glyph('\u{e9}'), glyph('?'));
}
