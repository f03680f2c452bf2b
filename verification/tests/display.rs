use kernel::display::driver::{clear_screen, write_strip};
use kernel::input::{ButtonEvent, ButtonId};
use kernel::screens::{
    button_name, decimal, diag_line, event_button, event_name, render_boot_placeholder,
};
use kernel::display::refresh::trigger_full_refresh;
use kernel::display::render::{pack_strip, strip_geometry, StripGeometry};
use kernel::display::scene::{
    logical_to_physical, render_scene_strip, scene_fits_i32, DisplayOp, DisplayScene,
};
use kernel::display::ssd1677::{
    emit_addressing_init_block, emit_full_window_and_cursor, emit_power_init_block,
    emit_reset_preamble, emit_strip_window_and_cursor, emit_window_and_cursor,
};
use kernel::display::transport::{DisplayTransport, RecordingTransport, TransportEvent};
use kernel::syscall::display::{
    display_clear_to, display_refresh_flush, display_scene_flush, draw_rect_in, fill_rect_in,
    set_pixel_in, FRAME_BYTES,
};

fn cmd(c: u8) -> TransportEvent {
    TransportEvent::Command(c)
}

fn data(d: &[u8]) -> TransportEvent {
    TransportEvent::Data(d.to_vec())
}

fn strip_pixel(buf: &[u8], row: usize, col: usize) -> bool {
    buf[row * 100 + col / 8] & (0x80 >> (col % 8)) != 0
}

fn frame_pixel(buf: &[u8], x: usize, y: usize) -> bool {
    strip_pixel(buf, 479 - x, y)
}

#[test]
fn reset_preamble_sequence() {
    let mut t = RecordingTransport::new();
    emit_reset_preamble(&mut t).unwrap();
    assert_eq!(t.events(), &vec![TransportEvent::Reset, cmd(0x12), TransportEvent::Delay(10)]);
}

#[test]
fn power_init_sequence() {
    let mut t = RecordingTransport::new();
    emit_power_init_block(&mut t).unwrap();
    assert_eq!(
        t.events(),
        &vec![
            cmd(0x0C),
            data(&[0xAE, 0xC7, 0xC3, 0xC0, 0x80]),
            cmd(0x3C),
            data(&[0x01]),
            cmd(0x2C),
            data(&[0x3C]),
            cmd(0x18),
            data(&[0x80]),
        ]
    );
}

#[test]
fn addressing_init_sequence() {
    let mut t = RecordingTransport::new();
    emit_addressing_init_block(&mut t).unwrap();
    assert_eq!(
        t.events(),
        &vec![
            cmd(0x01),
            data(&[0xDF, 0x01, 0x02]),
            cmd(0x11),
            data(&[0x01]),
            cmd(0x44),
            data(&[0x00, 0x00, 0x1F, 0x03]),
            cmd(0x45),
            data(&[0xDF, 0x01, 0x00, 0x00]),
        ]
    );
}

#[test]
fn window_flips_y_onto_gates() {
    let mut t = RecordingTransport::new();
    emit_window_and_cursor(&mut t, 8, 40, 16, 40).unwrap();
    // x_end = 23, y_flipped = 480 - 40 - 40 = 400, y_top = 439.
    assert_eq!(
        t.events(),
        &vec![
            cmd(0x11),
            data(&[0x01]),
            cmd(0x44),
            data(&[8, 0, 23, 0]),
            cmd(0x45),
            data(&[0xB7, 0x01, 0x90, 0x01]),
            cmd(0x4E),
            data(&[8, 0]),
            cmd(0x4F),
            data(&[0xB7, 0x01]),
        ]
    );
}

#[test]
fn full_and_strip_windows() {
    let mut a = RecordingTransport::new();
    emit_full_window_and_cursor(&mut a).unwrap();
    let mut b = RecordingTransport::new();
    emit_window_and_cursor(&mut b, 0, 0, 800, 480).unwrap();
    assert_eq!(a.events(), b.events());
    let mut c = RecordingTransport::new();
    emit_strip_window_and_cursor(&mut c, 40, 40).unwrap();
    // Rows 40..=79, row N on gate N: Y range 40..79, Y cursor 40, X cursor 0.
    assert_eq!(
        c.events(),
        &vec![
            cmd(0x45),
            data(&[40, 0, 79, 0]),
            cmd(0x4F),
            data(&[40, 0]),
            cmd(0x4E),
            data(&[0, 0]),
        ]
    );
}

#[test]
fn strip_window_high_rows() {
    let mut c = RecordingTransport::new();
    emit_strip_window_and_cursor(&mut c, 440, 40).unwrap();
    assert_eq!(c.events()[1], data(&[0xB8, 0x01, 0xDF, 0x01]));
    assert_eq!(c.events()[3], data(&[0xB8, 0x01]));
}

#[test]
fn write_strip_then_data() {
    let mut t = RecordingTransport::new();
    write_strip(&mut t, 0, 1, &[0xAA; 100]).unwrap();
    let ev = t.events();
    assert_eq!(ev.len(), 8);
    assert_eq!(ev[0], cmd(0x45));
    assert_eq!(ev[1], data(&[0, 0, 0, 0]));
    assert_eq!(ev[6], cmd(0x24));
    assert_eq!(ev[7], data(&[0xAA; 100]));
}

#[test]
fn clear_screen_writes_twelve_strips() {
    let mut t = RecordingTransport::new();
    let mut buf = [0u8; 4096];
    clear_screen(&mut t, 0xFF, &mut buf).unwrap();
    let ev = t.events();
    assert_eq!(ev.len(), 12 * 8);
    for k in 0..12 {
        let first = (k * 40) as u16;
        let last = first + 39;
        assert_eq!(
            ev[k * 8 + 1],
            data(&[first as u8, (first >> 8) as u8, last as u8, (last >> 8) as u8])
        );
        assert_eq!(ev[k * 8 + 6], cmd(0x24));
        assert_eq!(ev[k * 8 + 7], data(&[0xFF; 4000]));
    }
    assert!(buf[..4000].iter().all(|&b| b == 0xFF));
    assert!(buf[4000..].iter().all(|&b| b == 0));
}

#[test]
fn full_refresh_sequence() {
    let mut t = RecordingTransport::new();
    trigger_full_refresh(&mut t).unwrap();
    assert_eq!(
        t.events(),
        &vec![cmd(0x22), data(&[0xF7]), cmd(0x20), TransportEvent::WaitBusy]
    );
}

#[test]
fn delay_is_recorded_as_a_wait() {
    let mut t = RecordingTransport::new();
    t.delay_ms(5);
    assert_eq!(t.events(), &vec![TransportEvent::Delay(5)]);
}

#[test]
fn strip_geometry_for_panel() {
    assert_eq!(
        strip_geometry(480),
        StripGeometry { rows_per_strip: 40, strip_count: 12, last_strip_rows: 40 }
    );
    assert_eq!(
        strip_geometry(100),
        StripGeometry { rows_per_strip: 40, strip_count: 3, last_strip_rows: 20 }
    );
    assert_eq!(
        strip_geometry(0),
        StripGeometry { rows_per_strip: 40, strip_count: 0, last_strip_rows: 0 }
    );
}

#[test]
fn pack_strip_msb_first() {
    let pixels = [0u8, 1, 0, 0, 0, 0, 0, 9, 1, 1, 1, 1, 1, 1, 1, 1];
    let mut dst = [0xEEu8; 3];
    pack_strip(&pixels, 8, 2, &mut dst);
    assert_eq!(dst, [0b0100_0001, 0xFF, 0xEE]);
}

#[test]
fn logical_to_physical_rotates() {
    assert_eq!(logical_to_physical(0, 0), Some((0, 479)));
    assert_eq!(logical_to_physical(479, 799), Some((799, 0)));
    assert_eq!(logical_to_physical(480, 0), None);
    assert_eq!(logical_to_physical(0, 800), None);
    assert_eq!(logical_to_physical(-1, 3), None);
}

#[test]
fn scene_records_normalized_ops_and_overflows() {
    let mut s = DisplayScene::new();
    assert_eq!(s.clear_color(), 0xFF);
    s.set_pixel(1, 2, 7);
    s.fill_rect(0, 0, 4, 4, 0);
    s.draw_rect(1, 1, 2, 2, 200);
    assert_eq!(
        s.ops(),
        &[
            DisplayOp::Pixel { x: 1, y: 2, color: 0xFF },
            DisplayOp::FillRect { x: 0, y: 0, w: 4, h: 4, color: 0 },
            DisplayOp::DrawRect { x: 1, y: 1, w: 2, h: 2, color: 0xFF },
        ]
    );
    for _ in 0..300 {
        s.set_pixel(0, 0, 0);
    }
    assert_eq!(s.ops().len(), 256);
    assert!(s.overflowed());
    s.clear_to(3);
    assert_eq!(s.clear_color(), 0xFF);
    assert!(s.ops().is_empty());
    assert!(!s.overflowed());
    s.clear_to(0);
    assert_eq!(s.clear_color(), 0);
    let d = DisplayScene::default();
    assert_eq!(d, DisplayScene::new());
}

#[test]
fn render_strip_pixels_last_op_wins() {
    let mut s = DisplayScene::new();
    s.clear_to(0);
    // logical (x, y) -> panel (col y, row 479 - x)
    s.fill_rect(470, 10, 10, 20, 1); // panel cols 10..30, rows 0..10
    s.set_pixel(475, 15, 0); // panel col 15, row 4
    let mut dst = [0x5Au8; 4100];
    render_scene_strip(&s, 0, 40, &mut dst);
    assert!(strip_pixel(&dst, 0, 10));
    assert!(strip_pixel(&dst, 9, 29));
    assert!(!strip_pixel(&dst, 10, 10));
    assert!(!strip_pixel(&dst, 0, 9));
    assert!(!strip_pixel(&dst, 0, 30));
    assert!(!strip_pixel(&dst, 4, 15));
    assert!(strip_pixel(&dst, 4, 16));
    assert_eq!(&dst[4000..], &[0x5Au8; 100]);
}

#[test]
fn render_draw_rect_outline() {
    let mut s = DisplayScene::new();
    s.clear_to(0xFF);
    s.draw_rect(0, 0, 5, 5, 0); // panel cols 0..5, rows 475..480
    let mut dst = [0u8; 4000];
    render_scene_strip(&s, 440, 40, &mut dst);
    for col in 0..5 {
        assert!(!strip_pixel(&dst, 35, col));
        assert!(!strip_pixel(&dst, 39, col));
    }
    assert!(!strip_pixel(&dst, 37, 0));
    assert!(!strip_pixel(&dst, 37, 4));
    assert!(strip_pixel(&dst, 37, 2));
    assert!(strip_pixel(&dst, 34, 2));
}

#[test]
fn frame_pixels_rects_and_clear() {
    let mut buf = [0u8; FRAME_BYTES];
    display_clear_to(&mut buf, 0xFF);
    assert!(buf.iter().all(|&b| b == 0xFF));
    set_pixel_in(&mut buf, 3, 5, 0);
    assert!(!frame_pixel(&buf, 3, 5));
    assert!(frame_pixel(&buf, 4, 5));
    set_pixel_in(&mut buf, 480, 5, 0);
    fill_rect_in(&mut buf, 10, 20, 3, 2, 0);
    for x in 10..13 {
        for y in 20..22 {
            assert!(!frame_pixel(&buf, x, y));
        }
    }
    assert!(frame_pixel(&buf, 13, 20));
    assert!(frame_pixel(&buf, 10, 22));
    fill_rect_in(&mut buf, -5, -5, 7, 7, 0);
    assert!(!frame_pixel(&buf, 0, 0));
    assert!(!frame_pixel(&buf, 1, 1));
    assert!(frame_pixel(&buf, 2, 2));
    draw_rect_in(&mut buf, 100, 100, 4, 3, 0);
    assert!(!frame_pixel(&buf, 100, 100));
    assert!(!frame_pixel(&buf, 103, 102));
    assert!(!frame_pixel(&buf, 100, 101));
    assert!(frame_pixel(&buf, 101, 101));
    draw_rect_in(&mut buf, 200, 200, 0, 5, 0);
    assert!(frame_pixel(&buf, 200, 200));
}

#[test]
fn refresh_flush_streams_both_planes() {
    let mut t = RecordingTransport::new();
    let mut buf = [0u8; FRAME_BYTES];
    buf[4000] = 0x12;
    display_refresh_flush(&mut t, &buf).unwrap();
    let ev = t.events();
    assert_eq!(ev.len(), 2 * (10 + 1 + 12) + 4);
    assert_eq!(ev[10], cmd(0x26));
    assert_eq!(ev[12], TransportEvent::Data(buf[4000..8000].to_vec()));
    assert_eq!(ev[23 + 10], cmd(0x24));
    assert_eq!(ev[46], cmd(0x22));
    assert_eq!(ev[49], TransportEvent::WaitBusy);
}

#[test]
fn scene_flush_sends_rendered_strips() {
    let mut t = RecordingTransport::new();
    let mut s = DisplayScene::new();
    s.fill_rect(0, 0, 480, 800, 0);
    let mut strip = [0u8; 4096];
    display_scene_flush(&mut t, &s, &mut strip).unwrap();
    let ev = t.events();
    assert_eq!(ev.len(), 50);
    assert_eq!(ev[11], data(&[0u8; 4000]));
    assert_eq!(ev[45], data(&[0u8; 4000]));
}

fn scene_matches_frame(x: i32, y: i32, w: i32, h: i32) {
    let mut s = DisplayScene::new();
    s.clear_to(0xFF);
    s.draw_rect(x, y, w, h, 0);
    let mut full = vec![0u8; FRAME_BYTES];
    render_scene_strip(&s, 0, 480, &mut full);
    let mut fb = [0xFFu8; FRAME_BYTES];
    draw_rect_in(&mut fb, x, y, w, h, 0);
    assert!(full[..] == fb[..], "outline {} {} {} {}", x, y, w, h);
}

#[test]
fn scene_outline_matches_frame_outline_off_screen() {
    // Partly off the left/top edges: no edge is drawn along the screen border.
    scene_matches_frame(-3, -4, 10, 12);
    // Partly off the right/bottom edges.
    scene_matches_frame(470, 790, 30, 40);
    // Entirely on screen, and degenerate one-pixel outlines.
    scene_matches_frame(10, 20, 6, 9);
    scene_matches_frame(5, 5, 1, 7);
    scene_matches_frame(-2, 3, 3, 1);
    let mut s = DisplayScene::new();
    s.clear_to(0xFF);
    s.draw_rect(-3, -4, 10, 12, 0);
    let mut full = vec![0u8; FRAME_BYTES];
    render_scene_strip(&s, 0, 480, &mut full);
    // Logical (0, 2) is inside the outline, not on it.
    assert!(frame_pixel(&full, 0, 2));
    // Logical (6, 2) is on the right edge x + w - 1 = 6.
    assert!(!frame_pixel(&full, 6, 2));
}

#[test]
fn scene_fits_checks_rectangle_corners() {
    let mut s = DisplayScene::new();
    s.fill_rect(0, 0, 10, 10, 0);
    s.draw_rect(i32::MAX, 0, 0, 5, 0);
    assert!(scene_fits_i32(&s));
    s.draw_rect(i32::MAX - 1, 0, 5, 5, 0);
    assert!(!scene_fits_i32(&s));
}

#[test]
fn screens_names_and_lines() {
    assert_eq!(button_name(Some(ButtonId::Up)), b"VOLUP".to_vec());
    assert_eq!(button_name(None), b"-".to_vec());
    assert_eq!(event_name(Some(ButtonEvent::LongPress(ButtonId::Back))), b"LONG".to_vec());
    assert_eq!(event_button(Some(ButtonEvent::Repeat(ButtonId::Left))), Some(ButtonId::Left));
    assert_eq!(decimal(0), b"0".to_vec());
    assert_eq!(decimal(1984), b"1984".to_vec());
    assert_eq!(decimal(65535), b"65535".to_vec());
    assert_eq!(diag_line(b"G1 ", 1113, b" "), b"G1 1113 ".to_vec());
    assert_eq!(diag_line(&[b'A'; 30], 123, b"Z").len(), 32);
}

#[test]
fn boot_placeholder_bars() {
    let mut fb = [0u8; FRAME_BYTES];
    render_boot_placeholder(&mut fb, 3);
    // Outline corner, header block, third bar; the fourth bar is absent.
    assert!(!frame_pixel(&fb, 8, 8));
    assert!(frame_pixel(&fb, 9, 9));
    assert!(!frame_pixel(&fb, 30, 30));
    assert!(!frame_pixel(&fb, 30, 120 + 48 * 2));
    assert!(frame_pixel(&fb, 30, 120 + 48 * 3));
    assert!(frame_pixel(&fb, 300, 120 + 48 * 2 + 30));
}

fn mixed_scene() -> DisplayScene {
    let mut s = DisplayScene::new();
    s.clear_to(0xFF);
    s.fill_rect(-10, 100, 60, 40, 0);
    s.set_pixel(3, 4, 0);
    s.draw_rect(470, -5, 20, 30, 0);
    s.fill_rect(20, 110, 5, 5, 1);
    s.set_pixel(479, 799, 0);
    s
}

#[test]
fn scene_matches_immediate_helpers() {
    let s = mixed_scene();
    let mut full = vec![0u8; FRAME_BYTES];
    render_scene_strip(&s, 0, 480, &mut full);
    let mut fb = [s.clear_color(); FRAME_BYTES];
    for op in s.ops() {
        match *op {
            DisplayOp::Pixel { x, y, color } => set_pixel_in(&mut fb, x, y, color),
            DisplayOp::FillRect { x, y, w, h, color } => fill_rect_in(&mut fb, x, y, w, h, color),
            DisplayOp::DrawRect { x, y, w, h, color } => draw_rect_in(&mut fb, x, y, w, h, color),
            DisplayOp::Noop => {}
        }
    }
    assert!(full[..] == fb[..]);
}

#[test]
fn any_band_is_a_slice_of_the_frame() {
    let s = mixed_scene();
    let mut full = vec![0u8; FRAME_BYTES];
    render_scene_strip(&s, 0, 480, &mut full);
    for &(start, count) in &[(0u16, 1u16), (17, 23), (100, 37), (470, 10)] {
        let mut dst = vec![0x5Au8; count as usize * 100 + 50];
        render_scene_strip(&s, start, count, &mut dst);
        let a = start as usize * 100;
        let b = (start + count) as usize * 100;
        assert!(dst[..count as usize * 100] == full[a..b]);
        assert!(dst[count as usize * 100..].iter().all(|&x| x == 0x5A));
    }
}

#[test]
fn scene_flush_equals_frame_flush() {
    let s = mixed_scene();
    let mut full = [0u8; FRAME_BYTES];
    render_scene_strip(&s, 0, 480, &mut full);
    let mut a = RecordingTransport::new();
    let mut strip = [0u8; 4096];
    display_scene_flush(&mut a, &s, &mut strip).unwrap();
    let mut b = RecordingTransport::new();
    display_refresh_flush(&mut b, &full).unwrap();
    assert_eq!(a.events(), b.events());
}
