use vstd::prelude::*;
use vstd::slice::slice_subrange;

use crate::display::bits::row_pixel;
use crate::display::refresh::{full_refresh_ops, trigger_full_refresh};
use crate::display::render::strip_geometry;
use crate::display::bits::bit_white;
use crate::display::scene::{
    law_strip_is_slice_of_frame, lemma_frame_render_pixel, op_color, op_covers, ops_fit_i32,
    render_scene_strip, scene_pixel, scene_pixel_upto, scene_strip_bytes, set_strip_pixel,
    tail_kept, DisplayOp, DisplayScene,
};
use crate::display::ssd1677::{
    emit_full_window_and_cursor, window_ops, PANEL_HEIGHT, PANEL_WIDTH, ROW_BYTES, WRITE_RAM_BW,
    WRITE_RAM_RED,
};
use crate::display::transport::{
    issued, lemma_issued_one, lemma_issued_then, lemma_issued_widen, lemma_prefix_after,
    lemma_prefix_append, lemma_prefix_trans, BusOp, DisplayTransport,
};

verus! {

/// Total bytes in the packed 1-bit-per-pixel frame buffer for the full panel
/// (`ROW_BYTES × PANEL_HEIGHT`).
pub const FRAME_BYTES: usize = 48000;

/// A packed 1-bit-per-pixel frame buffer for the full panel.
pub type FrameBuffer = [u8; FRAME_BYTES];

// ── Model ────────────────────────────────────────────────────────────────────

/// Whether portrait logical `(x, y)` lies on the 480×800 screen.
pub open spec fn on_screen(x: int, y: int) -> bool {
    0 <= x < 480 && 0 <= y < 800
}

/// Whether logical pixel `(x, y)` of a frame is white: it lives at panel row
/// `479 - x`, column `y`.
pub open spec fn frame_pixel(frame: Seq<u8>, x: int, y: int) -> bool {
    row_pixel(frame, PANEL_HEIGHT - 1 - x, y)
}

/// The first `n` 4000-byte strips of `frame`, one data transfer each.
pub open spec fn frame_strip_ops(frame: Seq<u8>, n: int) -> Seq<BusOp>
    decreases n,
{
    if n <= 0 {
        Seq::empty()
    } else {
        frame_strip_ops(frame, n - 1).push(BusOp::Data(frame.subrange((n - 1) * 4000, n * 4000)))
    }
}

/// The first `n` rendered 40-row strips of a scene, one data transfer each.
pub open spec fn scene_strip_ops(ops: Seq<DisplayOp>, clear: u8, n: int) -> Seq<BusOp>
    decreases n,
{
    if n <= 0 {
        Seq::empty()
    } else {
        scene_strip_ops(ops, clear, n - 1).push(
            BusOp::Data(scene_strip_bytes(ops, clear, (n - 1) * 40, 40)),
        )
    }
}

/// Full window, the RAM command of one plane, then that plane's strips.
pub open spec fn plane_ops(ram: u8, strips: Seq<BusOp>) -> Seq<BusOp> {
    window_ops(0, 0, PANEL_WIDTH as int, PANEL_HEIGHT as int) + seq![BusOp::Command(ram)] + strips
}

/// Red plane, then black/white plane, then a full refresh.
pub open spec fn two_plane_flush_ops(strips: Seq<BusOp>) -> Seq<BusOp> {
    plane_ops(WRITE_RAM_RED, strips) + plane_ops(WRITE_RAM_BW, strips) + full_refresh_ops()
}

// ── Frame-buffer drawing ─────────────────────────────────────────────────────

/// Fill `buf` with `color` (e.g. `0xFF` = white, `0x00` = black).
///
/// `color` is a packed byte: every bit represents one pixel, so `0xFF` sets
/// all 8 pixels in a byte to white and `0x00` sets them all to black.
pub fn display_clear_to(buf: &mut FrameBuffer, color: u8)
    ensures
        forall|i: int| 0 <= i < FRAME_BYTES ==> #[trigger] final(buf)@[i] == color,
{
    let mut i: usize = 0;
    while i < FRAME_BYTES
        invariant
            i <= FRAME_BYTES,
            forall|k: int| 0 <= k < i ==> #[trigger] buf@[k] == color,
        decreases FRAME_BYTES - i,
    {
        buf[i] = color;
        i += 1;
    }
}

/// Set or clear one pixel in a packed 1-bit framebuffer.
///
/// Logical coordinates use the portrait orientation exposed by the syscall API
/// (`480×800`). They are rotated into the panel's physical `800×480` packed
/// framebuffer before the bit is updated; off-screen points change nothing.
pub fn set_pixel_in(buf: &mut FrameBuffer, x: i32, y: i32, color: u8)
    ensures
        forall|lx: int, ly: int|
            on_screen(lx, ly) ==> #[trigger] frame_pixel(final(buf)@, lx, ly) == if lx == x && ly
                == y {
                color != 0
            } else {
                frame_pixel(old(buf)@, lx, ly)
            },
{
    if x < 0 || y < 0 || x >= 480 || y >= 800 {
        return;
    }
    let px = y as usize;
    let py = PANEL_HEIGHT as usize - 1 - x as usize;
    set_strip_pixel(buf, 0, 480, px, py, color);
    assert forall|lx: int, ly: int| on_screen(lx, ly) implies #[trigger] frame_pixel(buf@, lx, ly)
        == if lx == x && ly == y {
        color != 0
    } else {
        frame_pixel(old(buf)@, lx, ly)
    } by {
        assert(row_pixel(buf@, 479 - lx, ly) == if 479 - lx == py && ly == px {
            color != 0
        } else {
            row_pixel(old(buf)@, 479 - lx, ly)
        });
    }
}

/// Fill a rectangular region with `color` in portrait logical coordinates.
pub fn fill_rect_in(buf: &mut FrameBuffer, x: i32, y: i32, w: i32, h: i32, color: u8)
    requires
        i32::MIN <= x + w <= i32::MAX,
        i32::MIN <= y + h <= i32::MAX,
    ensures
        forall|lx: int, ly: int|
            on_screen(lx, ly) ==> #[trigger] frame_pixel(final(buf)@, lx, ly) == if x <= lx < x + w
                && y <= ly < y + h {
                color != 0
            } else {
                frame_pixel(old(buf)@, lx, ly)
            },
{
    let x0: usize = if x > 0 {
        x as usize
    } else {
        0
    };
    let y0: usize = if y > 0 {
        y as usize
    } else {
        0
    };
    let xe = x + w;
    let ye = y + h;
    let x1: usize = if xe >= 480 {
        480
    } else if xe > 0 {
        xe as usize
    } else {
        0
    };
    let y1: usize = if ye >= 800 {
        800
    } else if ye > 0 {
        ye as usize
    } else {
        0
    };
    let mut row = y0;
    while row < y1
        invariant
            y0 <= row,
            row == y0 || row <= y1,
            y1 <= 800,
            x1 <= 480,
            forall|lx: int, ly: int|
                on_screen(lx, ly) ==> #[trigger] frame_pixel(buf@, lx, ly) == if x0 <= lx < x1 && y0
                    <= ly < row {
                    color != 0
                } else {
                    frame_pixel(old(buf)@, lx, ly)
                },
        decreases y1 - row,
    {
        let mut col = x0;
        while col < x1
            invariant
                x0 <= col,
                col == x0 || col <= x1,
                y0 <= row < y1 <= 800,
                x1 <= 480,
                forall|lx: int, ly: int|
                    on_screen(lx, ly) ==> #[trigger] frame_pixel(buf@, lx, ly) == if (x0 <= lx < x1
                        && y0 <= ly < row) || (ly == row && x0 <= lx < col) {
                        color != 0
                    } else {
                        frame_pixel(old(buf)@, lx, ly)
                    },
            decreases x1 - col,
        {
            set_pixel_in(buf, col as i32, row as i32, color);
            col += 1;
        }
        row += 1;
    }
}

/// Draw a 1-pixel-wide outline rectangle in portrait logical coordinates.
pub fn draw_rect_in(buf: &mut FrameBuffer, x: i32, y: i32, w: i32, h: i32, color: u8)
    requires
        w <= 0 || h <= 0 || (x + w <= i32::MAX && y + h <= i32::MAX),
    ensures
        forall|lx: int, ly: int|
            on_screen(lx, ly) ==> #[trigger] frame_pixel(final(buf)@, lx, ly) == if w > 0 && h > 0
                && ((x <= lx < x + w && (ly == y || ly == y + h - 1)) || (y + 1 <= ly < y + h - 1
                && (lx == x || lx == x + w - 1))) {
                color != 0
            } else {
                frame_pixel(old(buf)@, lx, ly)
            },
{
    if w <= 0 || h <= 0 {
        return;
    }
    let mut col = x;
    while col < x + w
        invariant
            x <= col <= x + w,
            x + w <= i32::MAX,
            y + h <= i32::MAX,
            h > 0,
            forall|lx: int, ly: int|
                on_screen(lx, ly) ==> #[trigger] frame_pixel(buf@, lx, ly) == if x <= lx < col && (ly
                    == y || ly == y + h - 1) {
                    color != 0
                } else {
                    frame_pixel(old(buf)@, lx, ly)
                },
        decreases x + w - col,
    {
        set_pixel_in(buf, col, y, color);
        set_pixel_in(buf, col, y + h - 1, color);
        col += 1;
    }
    let mut row = y + 1;
    while row < y + h - 1
        invariant
            y + 1 <= row,
            row == y + 1 || row <= y + h - 1,
            x + w <= i32::MAX,
            y + h <= i32::MAX,
            w > 0,
            h > 0,
            forall|lx: int, ly: int|
                on_screen(lx, ly) ==> #[trigger] frame_pixel(buf@, lx, ly) == if (x <= lx < x + w && (
                ly == y || ly == y + h - 1)) || (y + 1 <= ly < row && (lx == x || lx == x + w - 1)) {
                    color != 0
                } else {
                    frame_pixel(old(buf)@, lx, ly)
                },
        decreases y + h - 1 - row,
    {
        set_pixel_in(buf, x, row, color);
        set_pixel_in(buf, x + w - 1, row, color);
        row += 1;
    }
}

// ── Flushing ─────────────────────────────────────────────────────────────────

/// Each run of frame strips begins every longer run.
proof fn lemma_frame_strips_prefix(frame: Seq<u8>, i: int, j: int)
    requires
        0 <= i <= j,
    ensures
        frame_strip_ops(frame, i).is_prefix_of(frame_strip_ops(frame, j)),
    decreases j - i,
{
    if i < j {
        lemma_frame_strips_prefix(frame, i, j - 1);
        let x = BusOp::Data(frame.subrange((j - 1) * 4000, j * 4000));
        lemma_prefix_append(frame_strip_ops(frame, j - 1), seq![x]);
        assert(frame_strip_ops(frame, j - 1) + seq![x] =~= frame_strip_ops(frame, j));
        lemma_prefix_trans(frame_strip_ops(frame, i), frame_strip_ops(frame, j - 1), frame_strip_ops(frame, j));
    } else {
        lemma_prefix_append(frame_strip_ops(frame, i), Seq::empty());
        assert(frame_strip_ops(frame, i) + Seq::empty() =~= frame_strip_ops(frame, i));
    }
}

/// Each run of scene strips begins every longer run.
proof fn lemma_scene_strips_prefix(ops: Seq<DisplayOp>, clear: u8, i: int, j: int)
    requires
        0 <= i <= j,
    ensures
        scene_strip_ops(ops, clear, i).is_prefix_of(scene_strip_ops(ops, clear, j)),
    decreases j - i,
{
    if i < j {
        lemma_scene_strips_prefix(ops, clear, i, j - 1);
        let x = BusOp::Data(scene_strip_bytes(ops, clear, (j - 1) * 40, 40));
        lemma_prefix_append(scene_strip_ops(ops, clear, j - 1), seq![x]);
        assert(scene_strip_ops(ops, clear, j - 1) + seq![x] =~= scene_strip_ops(ops, clear, j));
        lemma_prefix_trans(
            scene_strip_ops(ops, clear, i),
            scene_strip_ops(ops, clear, j - 1),
            scene_strip_ops(ops, clear, j),
        );
    } else {
        lemma_prefix_append(scene_strip_ops(ops, clear, i), Seq::empty());
        assert(scene_strip_ops(ops, clear, i) + Seq::empty() =~= scene_strip_ops(ops, clear, i));
    }
}

/// A failure partway through a plane, or through the three parts of a flush,
/// is a failure of the whole run.
proof fn lemma_plane_heads(w: Seq<BusOp>, c: BusOp, strips: Seq<BusOp>)
    ensures
        w.is_prefix_of(w + seq![c] + strips),
        (w + seq![c]).is_prefix_of(w + seq![c] + strips),
{
    lemma_prefix_append(w, seq![c] + strips);
    assert(w + (seq![c] + strips) =~= w + seq![c] + strips);
    lemma_prefix_append(w + seq![c], strips);
}


fn flush_frame_plane<T: DisplayTransport>(transport: &mut T, ram_command: u8, buf: &FrameBuffer) -> (r:
    Result<(), T::Error>)
    ensures
        issued(
            *old(transport),
            *final(transport),
            plane_ops(ram_command, frame_strip_ops(buf@, 12)),
            r is Ok,
        ),
{
    let ghost t0 = *transport;
    let ghost w = window_ops(0, 0, PANEL_WIDTH as int, PANEL_HEIGHT as int);
    let ghost cmd = BusOp::Command(ram_command);
    let ghost total = plane_ops(ram_command, frame_strip_ops(buf@, 12));
    proof {
        lemma_plane_heads(w, cmd, frame_strip_ops(buf@, 12));
    }
    let geo = strip_geometry(PANEL_HEIGHT as usize);
    let r = emit_full_window_and_cursor(transport);
    if r.is_err() {
        proof {
            lemma_issued_widen(t0, *transport, w, total);
        }
        return r;
    }
    let ghost tp = *transport;
    let r = transport.write_command(ram_command);
    proof {
        lemma_issued_one(tp, *transport, cmd, r is Ok);
        lemma_issued_then(t0, tp, *transport, w, seq![cmd], r is Ok);
    }
    if r.is_err() {
        proof {
            lemma_issued_widen(t0, *transport, w + seq![cmd], total);
        }
        return r;
    }
    let ghost start = w + seq![cmd];
    assert(start + frame_strip_ops(buf@, 0) =~= start);
    let mut strip_idx: usize = 0;
    while strip_idx < geo.strip_count
        invariant
            geo.strip_count == 12,
            geo.rows_per_strip == 40,
            geo.last_strip_rows == 40,
            strip_idx <= 12,
            t0 == *old(transport),
            start == window_ops(0, 0, PANEL_WIDTH as int, PANEL_HEIGHT as int) + seq![
                BusOp::Command(ram_command),
            ],
            total == start + frame_strip_ops(buf@, 12),
            issued(t0, *transport, start + frame_strip_ops(buf@, strip_idx as int), true),
        decreases 12 - strip_idx,
    {
        let row_count = if strip_idx + 1 == geo.strip_count {
            geo.last_strip_rows
        } else {
            geo.rows_per_strip
        };
        let byte_start = strip_idx * geo.rows_per_strip * ROW_BYTES;
        let byte_end = byte_start + row_count * ROW_BYTES;
        let chunk = slice_subrange(buf.as_slice(), byte_start, byte_end);
        let ghost tp = *transport;
        let r = transport.write_data(chunk);
        proof {
            lemma_issued_one(tp, *transport, BusOp::Data(chunk@), r is Ok);
            lemma_issued_then(
                t0,
                tp,
                *transport,
                start + frame_strip_ops(buf@, strip_idx as int),
                seq![BusOp::Data(chunk@)],
                r is Ok,
            );
            assert(start + frame_strip_ops(buf@, strip_idx as int) + seq![BusOp::Data(chunk@)]
                =~= start + frame_strip_ops(buf@, strip_idx + 1));
        }
        if r.is_err() {
            proof {
                lemma_frame_strips_prefix(buf@, strip_idx + 1, 12);
                lemma_prefix_after(
                    start,
                    frame_strip_ops(buf@, strip_idx + 1),
                    frame_strip_ops(buf@, 12),
                );
                lemma_issued_widen(
                    t0,
                    *transport,
                    start + frame_strip_ops(buf@, strip_idx + 1),
                    total,
                );
            }
            return r;
        }
        strip_idx += 1;
    }
    Ok(())
}

/// Push `buf` to both full-frame RAM planes, then trigger a full refresh cycle.
///
/// The framebuffer is already in the packed 1-bit SSD1677 format, so it is
/// streamed directly in 40-row strips without repacking.
pub fn display_refresh_flush<T: DisplayTransport>(transport: &mut T, buf: &FrameBuffer) -> (r:
    Result<(), T::Error>)
    ensures
        issued(
            *old(transport),
            *final(transport),
            two_plane_flush_ops(frame_strip_ops(buf@, 12)),
            r is Ok,
        ),
{
    let ghost t0 = *transport;
    let ghost p1 = plane_ops(WRITE_RAM_RED, frame_strip_ops(buf@, 12));
    let ghost p2 = plane_ops(WRITE_RAM_BW, frame_strip_ops(buf@, 12));
    let ghost total = two_plane_flush_ops(frame_strip_ops(buf@, 12));
    proof {
        lemma_prefix_append(p1, p2 + full_refresh_ops());
        assert(p1 + (p2 + full_refresh_ops()) =~= total);
        lemma_prefix_append(p1 + p2, full_refresh_ops());
    }
    let r = flush_frame_plane(transport, WRITE_RAM_RED, buf);
    if r.is_err() {
        proof {
            lemma_issued_widen(t0, *transport, p1, total);
        }
        return r;
    }
    let ghost t1 = *transport;
    let r = flush_frame_plane(transport, WRITE_RAM_BW, buf);
    proof {
        lemma_issued_then(t0, t1, *transport, p1, p2, r is Ok);
    }
    if r.is_err() {
        proof {
            lemma_issued_widen(t0, *transport, p1 + p2, total);
        }
        return r;
    }
    let ghost t2 = *transport;
    let r = trigger_full_refresh(transport);
    proof {
        lemma_issued_then(t0, t2, *transport, p1 + p2, full_refresh_ops(), r is Ok);
    }
    r
}

fn flush_scene_plane<T: DisplayTransport>(
    transport: &mut T,
    ram_command: u8,
    scene: &DisplayScene,
    strip_buf: &mut [u8],
) -> (r: Result<(), T::Error>)
    requires
        old(strip_buf)@.len() >= 4000,
        ops_fit_i32(scene.op_seq()),
    ensures
        final(strip_buf)@.len() == old(strip_buf)@.len(),
        tail_kept(final(strip_buf)@, old(strip_buf)@, 4000),
        issued(
            *old(transport),
            *final(transport),
            plane_ops(ram_command, scene_strip_ops(scene.op_seq(), scene.background(), 12)),
            r is Ok,
        ),
{
    let ghost t0 = *transport;
    let ghost w = window_ops(0, 0, PANEL_WIDTH as int, PANEL_HEIGHT as int);
    let ghost cmd = BusOp::Command(ram_command);
    let ghost strips = scene_strip_ops(scene.op_seq(), scene.background(), 12);
    let ghost total = plane_ops(ram_command, strips);
    proof {
        lemma_plane_heads(w, cmd, strips);
    }
    let geo = strip_geometry(PANEL_HEIGHT as usize);
    let r = emit_full_window_and_cursor(transport);
    if r.is_err() {
        proof {
            lemma_issued_widen(t0, *transport, w, total);
        }
        return r;
    }
    let ghost tp = *transport;
    let r = transport.write_command(ram_command);
    proof {
        lemma_issued_one(tp, *transport, cmd, r is Ok);
        lemma_issued_then(t0, tp, *transport, w, seq![cmd], r is Ok);
    }
    if r.is_err() {
        proof {
            lemma_issued_widen(t0, *transport, w + seq![cmd], total);
        }
        return r;
    }
    let ghost start = w + seq![cmd];
    assert(start + scene_strip_ops(scene.op_seq(), scene.background(), 0) =~= start);
    let mut strip_idx: usize = 0;
    while strip_idx < geo.strip_count
        invariant
            geo.strip_count == 12,
            geo.rows_per_strip == 40,
            geo.last_strip_rows == 40,
            strip_idx <= 12,
            old(strip_buf)@.len() >= 4000,
            strip_buf@.len() == old(strip_buf)@.len(),
            tail_kept(strip_buf@, old(strip_buf)@, 4000),
            ops_fit_i32(scene.op_seq()),
            t0 == *old(transport),
            start == window_ops(0, 0, PANEL_WIDTH as int, PANEL_HEIGHT as int) + seq![
                BusOp::Command(ram_command),
            ],
            total == start + scene_strip_ops(scene.op_seq(), scene.background(), 12),
            issued(
                t0,
                *transport,
                start + scene_strip_ops(scene.op_seq(), scene.background(), strip_idx as int),
                true,
            ),
        decreases 12 - strip_idx,
    {
        let row_start = (strip_idx * geo.rows_per_strip) as u16;
        let row_count = (if strip_idx + 1 == geo.strip_count {
            geo.last_strip_rows
        } else {
            geo.rows_per_strip
        }) as u16;
        let byte_count = row_count as usize * ROW_BYTES;
        render_scene_strip(scene, row_start, row_count, strip_buf);
        let chunk = slice_subrange(strip_buf, 0, byte_count);
        let ghost tp = *transport;
        let r = transport.write_data(chunk);
        proof {
            lemma_issued_one(tp, *transport, BusOp::Data(chunk@), r is Ok);
            lemma_issued_then(
                t0,
                tp,
                *transport,
                start + scene_strip_ops(scene.op_seq(), scene.background(), strip_idx as int),
                seq![BusOp::Data(chunk@)],
                r is Ok,
            );
            assert(start + scene_strip_ops(scene.op_seq(), scene.background(), strip_idx as int)
                + seq![BusOp::Data(chunk@)] =~= start + scene_strip_ops(
                scene.op_seq(),
                scene.background(),
                strip_idx + 1,
            ));
        }
        if r.is_err() {
            proof {
                lemma_scene_strips_prefix(
                    scene.op_seq(),
                    scene.background(),
                    strip_idx + 1,
                    12,
                );
                lemma_prefix_after(
                    start,
                    scene_strip_ops(scene.op_seq(), scene.background(), strip_idx + 1),
                    scene_strip_ops(scene.op_seq(), scene.background(), 12),
                );
                lemma_issued_widen(
                    t0,
                    *transport,
                    start + scene_strip_ops(scene.op_seq(), scene.background(), strip_idx + 1),
                    total,
                );
            }
            return r;
        }
        strip_idx += 1;
    }
    Ok(())
}

/// Replay a retained scene into a strip buffer and flush it to the display:
/// both RAM planes, strip by strip, then a full refresh.
pub fn display_scene_flush<T: DisplayTransport>(
    transport: &mut T,
    scene: &DisplayScene,
    strip_buf: &mut [u8],
) -> (r: Result<(), T::Error>)
    requires
        old(strip_buf)@.len() >= 4000,
        ops_fit_i32(scene.op_seq()),
    ensures
        final(strip_buf)@.len() == old(strip_buf)@.len(),
        tail_kept(final(strip_buf)@, old(strip_buf)@, 4000),
        issued(
            *old(transport),
            *final(transport),
            two_plane_flush_ops(scene_strip_ops(scene.op_seq(), scene.background(), 12)),
            r is Ok,
        ),
{
    let ghost t0 = *transport;
    let ghost strips = scene_strip_ops(scene.op_seq(), scene.background(), 12);
    let ghost p1 = plane_ops(WRITE_RAM_RED, strips);
    let ghost p2 = plane_ops(WRITE_RAM_BW, strips);
    let ghost total = two_plane_flush_ops(strips);
    proof {
        lemma_prefix_append(p1, p2 + full_refresh_ops());
        assert(p1 + (p2 + full_refresh_ops()) =~= total);
        lemma_prefix_append(p1 + p2, full_refresh_ops());
    }
    let r = flush_scene_plane(transport, WRITE_RAM_RED, scene, strip_buf);
    if r.is_err() {
        proof {
            lemma_issued_widen(t0, *transport, p1, total);
        }
        return r;
    }
    let ghost t1 = *transport;
    let r = flush_scene_plane(transport, WRITE_RAM_BW, scene, strip_buf);
    proof {
        lemma_issued_then(t0, t1, *transport, p1, p2, r is Ok);
    }
    if r.is_err() {
        proof {
            lemma_issued_widen(t0, *transport, p1 + p2, total);
        }
        return r;
    }
    let ghost t2 = *transport;
    let r = trigger_full_refresh(transport);
    proof {
        lemma_issued_then(t0, t2, *transport, p1 + p2, full_refresh_ops(), r is Ok);
    }
    r
}

// ── The scene against the immediate helpers ─────────────────────────────────

/// Which logical pixels the immediate helper for `op` paints: `set_pixel_in`
/// for a pixel, `fill_rect_in` for a filled rectangle, `draw_rect_in` for an
/// outline (their `ensures` say exactly this).
pub open spec fn helper_covers(op: DisplayOp, lx: int, ly: int) -> bool {
    match op {
        DisplayOp::Noop => false,
        DisplayOp::Pixel { x, y, .. } => lx == x && ly == y,
        DisplayOp::FillRect { x, y, w, h, .. } => x <= lx < x + w && y <= ly < y + h,
        DisplayOp::DrawRect { x, y, w, h, .. } => w > 0 && h > 0 && ((x <= lx < x + w && (ly == y
            || ly == y + h - 1)) || (y + 1 <= ly < y + h - 1 && (lx == x || lx == x + w - 1))),
    }
}

/// Whether logical pixel `(lx, ly)` is white after a frame of background byte
/// `clear` has had the helpers for the first `n` ops applied in order.
pub open spec fn helpers_pixel(ops: Seq<DisplayOp>, n: int, clear: u8, lx: int, ly: int) -> bool
    decreases n,
{
    if n <= 0 {
        bit_white(clear, (ly % 8) as u8)
    } else if helper_covers(ops[n - 1], lx, ly) {
        op_color(ops[n - 1]) != 0
    } else {
        helpers_pixel(ops, n - 1, clear, lx, ly)
    }
}

proof fn lemma_covers_agree(op: DisplayOp, lx: int, ly: int)
    requires
        on_screen(lx, ly),
    ensures
        op_covers(op, PANEL_HEIGHT - 1 - lx, ly) == helper_covers(op, lx, ly),
{
}

proof fn lemma_scene_helpers_upto(ops: Seq<DisplayOp>, n: int, clear: u8, lx: int, ly: int)
    requires
        on_screen(lx, ly),
        n <= ops.len(),
    ensures
        scene_pixel_upto(ops, n, clear, PANEL_HEIGHT - 1 - lx, ly) == helpers_pixel(
            ops,
            n,
            clear,
            lx,
            ly,
        ),
    decreases n,
{
    if n > 0 {
        lemma_covers_agree(ops[n - 1], lx, ly);
        lemma_scene_helpers_upto(ops, n - 1, clear, lx, ly);
    }
}

/// The retained scene renders what the immediate helpers draw: on a frame
/// filled with the background, applying `set_pixel_in`, `fill_rect_in` and
/// `draw_rect_in` for the ops in order gives, pixel for pixel, the
/// whole-panel render of the scene (a partly off-screen outline shows only its
/// on-screen edges in both).
pub proof fn law_scene_matches_helpers(ops: Seq<DisplayOp>, clear: u8, lx: int, ly: int)
    requires
        on_screen(lx, ly),
    ensures
        frame_pixel(scene_strip_bytes(ops, clear, 0, 480), lx, ly) == helpers_pixel(
            ops,
            ops.len() as int,
            clear,
            lx,
            ly,
        ),
{
    lemma_frame_render_pixel(ops, clear, PANEL_HEIGHT - 1 - lx, ly);
    lemma_scene_helpers_upto(ops, ops.len() as int, clear, lx, ly);
}

proof fn lemma_scene_strips_are_frame_strips(ops: Seq<DisplayOp>, clear: u8, n: int)
    requires
        0 <= n <= 12,
    ensures
        scene_strip_ops(ops, clear, n) == frame_strip_ops(scene_strip_bytes(ops, clear, 0, 480), n),
    decreases n,
{
    if n > 0 {
        lemma_scene_strips_are_frame_strips(ops, clear, n - 1);
        law_strip_is_slice_of_frame(ops, clear, (n - 1) * 40, 40);
        assert((n - 1) * 40 * 100 == (n - 1) * 4000);
    }
}

/// Flushing a scene puts on the bus exactly what flushing its whole-panel
/// render as a frame buffer does.
pub proof fn law_scene_flush_is_frame_flush(ops: Seq<DisplayOp>, clear: u8)
    ensures
        two_plane_flush_ops(scene_strip_ops(ops, clear, 12)) == two_plane_flush_ops(
            frame_strip_ops(scene_strip_bytes(ops, clear, 0, 480), 12),
        ),
{
    lemma_scene_strips_are_frame_strips(ops, clear, 12);
}

} // verus!
