use openmk3::display::dirty::{DirtyTracker, COLS, ROWS};
use openmk3::display::encoder::{encode_frame, frame_period_us};
use openmk3::display::framebuffer::Framebuffer;
use openmk3::proto::display::{DISPLAY_CMD_LEN, DISPLAY_HEADER_LEN};
use openmk3::proto::types::{DisplayId, Rgb};

#[test]
fn rect_covers_expected_tiles() {
    let mut d = DirtyTracker::new();
    d.mark_rect(15, 15, 2, 2);
    assert!(d.is_tile_dirty(0, 0));
    assert!(d.is_tile_dirty(1, 0));
    assert!(d.is_tile_dirty(0, 1));
    assert!(d.is_tile_dirty(1, 1));
    assert!(!d.is_tile_dirty(2, 2));
}

#[test]
fn runs_coalesce_horizontal() {
    let mut d = DirtyTracker::new();
    d.mark_tile(2, 0);
    d.mark_tile(3, 0);
    d.mark_tile(4, 0);
    d.mark_tile(10, 0);
    d.mark_tile(5, 3);
    let runs = d.runs();
    assert_eq!(runs, vec![(0, 2, 4), (0, 10, 10), (3, 5, 5)]);
}

#[test]
fn mark_full_sets_all_and_nothing_extra() {
    let mut d = DirtyTracker::new();
    d.mark_full();
    for r in 0..ROWS {
        for c in 0..COLS {
            assert!(d.is_tile_dirty(c, r));
        }
    }
    assert_eq!(d.words()[7] >> (510 - 7 * 64), 0);
}

#[test]
fn dirty_tracker_clear_and_offscreen_marks() {
    let mut d = DirtyTracker::new();
    assert!(d.is_empty());
    d.mark_pixel(479, 271);
    assert!(d.is_tile_dirty(29, 16));
    d.mark_pixel(480, 0);
    d.mark_tile(30, 0);
    assert_eq!(d.runs(), vec![(16, 29, 29)]);
    d.clear();
    assert!(d.is_empty());
    assert!(d.runs().is_empty());
}

#[test]
fn full_tracker_runs_span_each_row() {
    let mut d = DirtyTracker::new();
    d.mark_full();
    let runs = d.runs();
    assert_eq!(runs.len(), ROWS);
    for (r, run) in runs.iter().enumerate() {
        assert_eq!(*run, (r, 0, COLS - 1));
    }
}

#[test]
fn empty_frame_still_closes_transfer() {
    let mut fb = Framebuffer::new();
    let bytes = encode_frame(DisplayId::Left, &mut fb);
    assert_eq!(bytes.len(), DISPLAY_CMD_LEN * 2);
    assert_eq!(bytes[0], 0x03);
    assert_eq!(bytes[DISPLAY_CMD_LEN], 0x40);
}

#[test]
fn solid_run_uses_repeat() {
    let mut fb = Framebuffer::new();
    fb.fill_rect(0, 0, 16, 16, Rgb::new(0, 0xff, 0));
    let bytes = encode_frame(DisplayId::Left, &mut fb);
    assert_eq!(bytes.len(), 56);
    assert_eq!(bytes[DISPLAY_HEADER_LEN], 0x01);
    assert_eq!(&bytes[DISPLAY_HEADER_LEN + 4..DISPLAY_HEADER_LEN + 8], &[0x07, 0xe0, 0x07, 0xe0]);
}

#[test]
fn clear_then_partial_update_emits_two_command_blocks() {
    let mut fb = Framebuffer::new();
    fb.clear(Rgb::black());
    let full = encode_frame(DisplayId::Left, &mut fb);
    assert!(full.len() > 32);
    assert_eq!(full[full.len() - 16], 0x03);
    assert_eq!(full[full.len() - 8], 0x40);

    let empty = encode_frame(DisplayId::Left, &mut fb);
    assert_eq!(empty.len(), 16);

    fb.fill_rect(48, 48, 16, 16, Rgb::new(0xff, 0, 0));
    let small = encode_frame(DisplayId::Left, &mut fb);
    assert!(small.len() >= 32 + 8 + 16);
    assert_eq!(small[0], 0x84);
    assert_eq!(small[32], 0x01);
}

#[test]
fn solid_fill_compresses_to_repeat() {
    let mut fb = Framebuffer::new();
    fb.fill_rect(16, 16, 64, 16, Rgb::new(0, 0xff, 0));
    let bytes = encode_frame(DisplayId::Right, &mut fb);
    assert_eq!(bytes.len(), 56);
    assert_eq!(bytes[32], 0x01);
}

#[test]
fn mixed_run_uses_blit_with_pixels() {
    let mut fb = Framebuffer::new();
    fb.set_pixel(0, 0, Rgb::new(0xff, 0, 0));
    let bytes = encode_frame(DisplayId::Left, &mut fb);
    // Header, blit command for 128 pixel pairs, 512 pixel bytes, flush, end.
    assert_eq!(bytes.len(), 32 + 8 + 512 + 16);
    assert_eq!(&bytes[32..36], &[0x00, 0x00, 0x00, 0x80]);
    assert_eq!(&bytes[40..44], &[0xf8, 0x00, 0x00, 0x00]);
    assert_eq!(&bytes[16..24], &[0x00, 0x00, 0x00, 0x00, 0x00, 0x10, 0x00, 0x10]);
}

#[test]
fn framebuffer_basics() {
    let mut fb = Framebuffer::new();
    assert_eq!(fb.width(), 480);
    assert_eq!(fb.height(), 272);
    assert!(!fb.is_dirty());
    fb.set_pixel(10, 20, Rgb::white());
    assert!(fb.is_dirty());
    assert_eq!(fb.pixels()[20 * 480 + 10], 0xffff);
    fb.set_pixel(480, 0, Rgb::white());
    assert_eq!(fb.dirty_runs(), vec![(1, 0, 0)]);
    fb.touch(470, 260, 100, 100);
    assert_eq!(fb.dirty_runs(), vec![(1, 0, 0), (16, 29, 29)]);
}

#[test]
fn frame_period_is_a_second_over_the_rate() {
    assert_eq!(frame_period_us(60), 16_666);
    assert_eq!(frame_period_us(1), 1_000_000);
    assert_eq!(frame_period_us(0), 1_000_000);
    assert_eq!(frame_period_us(u32::MAX), 0);
}
