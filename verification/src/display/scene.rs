use vstd::prelude::*;

use crate::abi::{PD_SCREEN_HEIGHT, PD_SCREEN_WIDTH};
use crate::display::bits::{
    bit_white, bits_byte, lemma_bits_byte_ext, lemma_both_masks, lemma_byte_from_pixels,
    lemma_clear_mask, lemma_first_mask, lemma_last_mask, lemma_or_mask, lemma_single_mask,
    lemma_bits_byte_bit, lemma_solid_bytes, row_pixel,
};
use crate::display::ssd1677::{PANEL_HEIGHT, ROW_BYTES};

verus! {

/// Capacity of a retained scene; pushes beyond it are dropped and flagged.
pub const MAX_SCENE_OPS: usize = 256;

/// One retained drawing operation, in portrait logical coordinates.
#[derive(Clone, Copy, Debug, Eq, PartialEq, Structural)]
pub enum DisplayOp {
    Noop,
    Pixel { x: i32, y: i32, color: u8 },
    DrawRect { x: i32, y: i32, w: i32, h: i32, color: u8 },
    FillRect { x: i32, y: i32, w: i32, h: i32, color: u8 },
}

/// A retained list of drawing operations over a solid background, replayed
/// strip by strip when the display is flushed.
#[derive(Clone, Copy, Debug, Eq, PartialEq)]
pub struct DisplayScene {
    clear_color: u8,
    ops: [DisplayOp; 256],
    op_count: usize,
    overflowed: bool,
}

#[derive(Clone, Copy, Debug, Eq, PartialEq)]
struct PhysicalRect {
    x0: usize,
    y0: usize,
    x1: usize,
    y1: usize,
}

// ── Model ────────────────────────────────────────────────────────────────────

/// Colors are stored as solid bytes: 0 stays black, anything else becomes white.
pub open spec fn spec_normalize(c: u8) -> u8 {
    if c == 0 {
        0x00
    } else {
        0xFF
    }
}

/// Portrait logical `(x, y)` on the 480×800 screen to the panel's `(column, row)`.
pub open spec fn spec_logical_to_physical(x: int, y: int) -> Option<(int, int)> {
    if x < 0 || y < 0 || x >= PD_SCREEN_WIDTH || y >= PD_SCREEN_HEIGHT {
        None
    } else {
        Some((y, PANEL_HEIGHT - 1 - x))
    }
}

pub open spec fn clamp(v: int, lo: int, hi: int) -> int {
    if v < lo {
        lo
    } else if v > hi {
        hi
    } else {
        v
    }
}

/// The panel columns `[.0, .2)` and rows `[.1, .3)` that a logical rectangle
/// covers after clipping to the screen, or `None` when nothing is left.
pub open spec fn spec_physical_rect(x: int, y: int, w: int, h: int) -> Option<(int, int, int, int)> {
    if w <= 0 || h <= 0 {
        None
    } else {
        let x0 = clamp(x, 0, PD_SCREEN_WIDTH as int);
        let y0 = clamp(y, 0, PD_SCREEN_HEIGHT as int);
        let x1 = clamp(x + w, 0, PD_SCREEN_WIDTH as int);
        let y1 = clamp(y + h, 0, PD_SCREEN_HEIGHT as int);
        if x0 >= x1 || y0 >= y1 {
            None
        } else {
            Some((y0, PANEL_HEIGHT - x1, y1, PANEL_HEIGHT - x0))
        }
    }
}

pub open spec fn in_rect(r: (int, int, int, int), row: int, col: int) -> bool {
    r.0 <= col < r.2 && r.1 <= row < r.3
}

/// Whether `op` paints the panel pixel at `(row, col)`.
pub open spec fn op_covers(op: DisplayOp, row: int, col: int) -> bool {
    match op {
        DisplayOp::Noop => false,
        DisplayOp::Pixel { x, y, .. } => spec_logical_to_physical(x as int, y as int) == Some(
            (col, row),
        ),
        DisplayOp::FillRect { x, y, w, h, .. } => match spec_physical_rect(
            x as int,
            y as int,
            w as int,
            h as int,
        ) {
            None => false,
            Some(r) => in_rect(r, row, col),
        },
        DisplayOp::DrawRect { x, y, w, h, .. } => {
            // The logical point on this panel pixel: column `479 - row`, row `col`.
            let lx = PANEL_HEIGHT - 1 - row;
            let ly = col;
            &&& 0 <= row < PANEL_HEIGHT
            &&& 0 <= col < 800
            &&& w > 0 && h > 0
            &&& ((x <= lx < x + w && (ly == y || ly == y + h - 1)) || (y <= ly < y + h && (lx == x
                || lx == x + w - 1)))
        },
    }
}

pub open spec fn op_color(op: DisplayOp) -> u8 {
    match op {
        DisplayOp::Noop => 0,
        DisplayOp::Pixel { color, .. } => color,
        DisplayOp::DrawRect { color, .. } => color,
        DisplayOp::FillRect { color, .. } => color,
    }
}

/// Whether the panel pixel `(row, col)` is white after the first `n` ops over
/// the background byte `clear`: the last op that covers it decides.
pub open spec fn scene_pixel_upto(ops: Seq<DisplayOp>, n: int, clear: u8, row: int, col: int) -> bool
    decreases n,
{
    if n <= 0 {
        bit_white(clear, (col % 8) as u8)
    } else if op_covers(ops[n - 1], row, col) {
        op_color(ops[n - 1]) != 0
    } else {
        scene_pixel_upto(ops, n - 1, clear, row, col)
    }
}

/// Whether the panel pixel `(row, col)` of the whole scene is white.
pub open spec fn scene_pixel(ops: Seq<DisplayOp>, clear: u8, row: int, col: int) -> bool {
    scene_pixel_upto(ops, ops.len() as int, clear, row, col)
}

/// The packed bytes of the strip of `row_count` panel rows starting at `row_start`.
pub open spec fn scene_strip_bytes(ops: Seq<DisplayOp>, clear: u8, row_start: int, row_count: int) -> Seq<
    u8,
> {
    Seq::new(
        (row_count * 100) as nat,
        |i: int|
            bits_byte(|j: int| scene_pixel(ops, clear, row_start + i / 100, (i % 100) * 8 + j), 8),
    )
}

/// Rectangle ops whose `x + w` or `y + h` would overflow `i32` cannot be rendered.
pub open spec fn op_fits_i32(op: DisplayOp) -> bool {
    match op {
        DisplayOp::DrawRect { x, y, w, h, .. } => w <= 0 || h <= 0 || (x + w <= i32::MAX && y + h
            <= i32::MAX),
        DisplayOp::FillRect { x, y, w, h, .. } => w <= 0 || h <= 0 || (x + w <= i32::MAX && y + h
            <= i32::MAX),
        _ => true,
    }
}

pub open spec fn ops_fit_i32(ops: Seq<DisplayOp>) -> bool {
    forall|i: int| 0 <= i < ops.len() ==> #[trigger] op_fits_i32(ops[i])
}

/// Bytes at or after `from` are unchanged and the length is kept.
pub open spec fn tail_kept(after: Seq<u8>, before: Seq<u8>, from: int) -> bool {
    &&& after.len() == before.len()
    &&& forall|i: int| from <= i < after.len() ==> #[trigger] after[i] == before[i]
}

/// Distinct on-screen logical points land on distinct panel pixels.
pub proof fn law_logical_to_physical_injective(x1: int, y1: int, x2: int, y2: int)
    requires
        spec_logical_to_physical(x1, y1) is Some,
        spec_logical_to_physical(x1, y1) == spec_logical_to_physical(x2, y2),
    ensures
        x1 == x2 && y1 == y2,
{
}

/// Rendering strip by strip gives the same bytes as rendering the whole
/// panel at once: strip `k` of 40 rows is bytes `[4000k, 4000k + 4000)` of the frame.
pub proof fn law_strips_tile_the_frame(ops: Seq<DisplayOp>, clear: u8, k: int)
    requires
        0 <= k < 12,
    ensures
        scene_strip_bytes(ops, clear, 40 * k, 40) == scene_strip_bytes(ops, clear, 0, 480).subrange(
            4000 * k,
            4000 * k + 4000,
        ),
{
    let a = scene_strip_bytes(ops, clear, 40 * k, 40);
    let b = scene_strip_bytes(ops, clear, 0, 480).subrange(4000 * k, 4000 * k + 4000);
    assert forall|i: int| 0 <= i < 4000 implies #[trigger] a[i] == b[i] by {
        let g = 4000 * k + i;
        assert(g / 100 == 40 * k + i / 100);
        assert(g % 100 == i % 100);
    }
    assert(a =~= b);
}

/// Rendering any band of rows gives the same bytes as the matching slice of
/// the whole-panel render: rows `[row_start, row_start + row_count)` are bytes
/// `[100 row_start, 100 (row_start + row_count))` of the frame.
pub proof fn law_strip_is_slice_of_frame(ops: Seq<DisplayOp>, clear: u8, row_start: int, row_count: int)
    requires
        0 <= row_start,
        0 <= row_count,
        row_start + row_count <= 480,
    ensures
        scene_strip_bytes(ops, clear, row_start, row_count) == scene_strip_bytes(ops, clear, 0, 480).subrange(
            row_start * 100,
            (row_start + row_count) * 100,
        ),
{
    let a = scene_strip_bytes(ops, clear, row_start, row_count);
    let b = scene_strip_bytes(ops, clear, 0, 480).subrange(row_start * 100, (row_start + row_count) * 100);
    assert forall|i: int| 0 <= i < row_count * 100 implies #[trigger] a[i] == b[i] by {
        let g = row_start * 100 + i;
        assert(g / 100 == row_start + i / 100);
        assert(g % 100 == i % 100);
    }
    assert(a =~= b);
}

/// Each pixel of the whole-panel render is the scene's pixel there.
pub proof fn lemma_frame_render_pixel(ops: Seq<DisplayOp>, clear: u8, r: int, c: int)
    requires
        0 <= r < 480,
        0 <= c < 800,
    ensures
        row_pixel(scene_strip_bytes(ops, clear, 0, 480), r, c) == scene_pixel(ops, clear, r, c),
{
    let i = r * 100 + c / 8;
    assert(0 <= i < 48000) by (nonlinear_arith)
        requires
            0 <= r < 480,
            0 <= c < 800,
            i == r * 100 + c / 8,
    ;
    assert(i / 100 == r);
    assert(i % 100 == c / 8);
    let w = |j: int| scene_pixel(ops, clear, 0 + i / 100, (i % 100) * 8 + j);
    lemma_bits_byte_bit(w, 8, (c % 8) as u8);
    assert((c / 8) * 8 + c % 8 == c);
}

// ── Scene ────────────────────────────────────────────────────────────────────

impl DisplayScene {
    #[verifier::type_invariant]
    spec fn inv(self) -> bool {
        &&& self.op_count <= MAX_SCENE_OPS
        &&& self.clear_color == 0 || self.clear_color == 0xFF
    }

    /// The retained operations, oldest first.
    pub closed spec fn op_seq(self) -> Seq<DisplayOp> {
        self.ops@.subrange(0, self.op_count as int)
    }

    /// The background byte.
    pub closed spec fn background(self) -> u8 {
        self.clear_color
    }

    /// Whether an operation was dropped for lack of room since the last clear.
    pub closed spec fn dropped_ops(self) -> bool {
        self.overflowed
    }

    /// Whether this is the scene `new` makes: white, with no ops, nothing
    /// dropped and every op slot empty.
    pub closed spec fn is_fresh(self) -> bool {
        &&& self.clear_color == 0xFF
        &&& self.op_count == 0
        &&& !self.overflowed
        &&& forall|i: int| 0 <= i < MAX_SCENE_OPS ==> #[trigger] self.ops[i] == DisplayOp::Noop
    }

    /// An empty white scene.
    pub fn new() -> (s: Self)
        ensures
            s.op_seq() == Seq::<DisplayOp>::empty(),
            s.background() == 0xFF,
            !s.dropped_ops(),
            s.is_fresh(),
    {
        let s = DisplayScene {
            clear_color: 0xFF,
            ops: [DisplayOp::Noop; 256],
            op_count: 0,
            overflowed: false,
        };
        assert(s.op_seq() =~= Seq::<DisplayOp>::empty());
        s
    }

    /// Drop every op and make the background `color` (normalized).
    pub fn clear_to(&mut self, color: u8)
        ensures
            final(self).op_seq() == Seq::<DisplayOp>::empty(),
            final(self).background() == spec_normalize(color),
            !final(self).dropped_ops(),
    {
        proof {
            use_type_invariant(&*self);
        }
        self.clear_color = normalize_color(color);
        self.op_count = 0;
        self.overflowed = false;
        assert(self.op_seq() =~= Seq::<DisplayOp>::empty());
    }

    /// Record a pixel at logical `(x, y)`.
    pub fn set_pixel(&mut self, x: i32, y: i32, color: u8)
        ensures
            final(self).op_seq() == pushed(
                old(self).op_seq(),
                DisplayOp::Pixel { x, y, color: spec_normalize(color) },
            ),
            final(self).background() == old(self).background(),
            final(self).dropped_ops() == (old(self).dropped_ops() || old(self).op_seq().len()
                >= MAX_SCENE_OPS),
    {
        self.push(DisplayOp::Pixel { x, y, color: normalize_color(color) });
    }

    /// Record a one-pixel outline rectangle.
    pub fn draw_rect(&mut self, x: i32, y: i32, w: i32, h: i32, color: u8)
        ensures
            final(self).op_seq() == pushed(
                old(self).op_seq(),
                DisplayOp::DrawRect { x, y, w, h, color: spec_normalize(color) },
            ),
            final(self).background() == old(self).background(),
            final(self).dropped_ops() == (old(self).dropped_ops() || old(self).op_seq().len()
                >= MAX_SCENE_OPS),
    {
        self.push(DisplayOp::DrawRect { x, y, w, h, color: normalize_color(color) });
    }

    /// Record a filled rectangle.
    pub fn fill_rect(&mut self, x: i32, y: i32, w: i32, h: i32, color: u8)
        ensures
            final(self).op_seq() == pushed(
                old(self).op_seq(),
                DisplayOp::FillRect { x, y, w, h, color: spec_normalize(color) },
            ),
            final(self).background() == old(self).background(),
            final(self).dropped_ops() == (old(self).dropped_ops() || old(self).op_seq().len()
                >= MAX_SCENE_OPS),
    {
        self.push(DisplayOp::FillRect { x, y, w, h, color: normalize_color(color) });
    }

    pub fn clear_color(&self) -> (c: u8)
        ensures
            c == self.background(),
            c == 0 || c == 0xFF,
    {
        proof {
            use_type_invariant(self);
        }
        self.clear_color
    }

    pub fn ops(&self) -> (r: &[DisplayOp])
        ensures
            r@ == self.op_seq(),
            r@.len() <= MAX_SCENE_OPS,
    {
        proof {
            use_type_invariant(self);
        }
        vstd::slice::slice_subrange(self.ops.as_slice(), 0, self.op_count)
    }

    pub fn overflowed(&self) -> (b: bool)
        ensures
            b == self.dropped_ops(),
    {
        self.overflowed
    }

    fn push(&mut self, op: DisplayOp)
        ensures
            final(self).op_seq() == pushed(old(self).op_seq(), op),
            final(self).background() == old(self).background(),
            final(self).dropped_ops() == (old(self).dropped_ops() || old(self).op_seq().len()
                >= MAX_SCENE_OPS),
    {
        proof {
            use_type_invariant(&*self);
        }
        if self.op_count < MAX_SCENE_OPS {
            let n = self.op_count;
            self.ops[n] = op;
            self.op_count = n + 1;
            assert(self.op_seq() =~= old(self).op_seq().push(op));
        } else {
            self.overflowed = true;
        }
    }
}

/// `ops` with `op` appended, unless it already holds `MAX_SCENE_OPS` ops.
pub open spec fn pushed(ops: Seq<DisplayOp>, op: DisplayOp) -> Seq<DisplayOp> {
    if ops.len() < MAX_SCENE_OPS {
        ops.push(op)
    } else {
        ops
    }
}

impl Default for DisplayScene {
    fn default() -> (s: Self)
        ensures
            s.op_seq() == Seq::<DisplayOp>::empty(),
            s.background() == 0xFF,
            !s.dropped_ops(),
            s.is_fresh(),
    {
        Self::new()
    }
}

/// There is one fresh scene: any two scenes as `new` or `default` makes
/// them are the same value, unused op slots included.
pub proof fn law_fresh_scenes_equal(a: DisplayScene, b: DisplayScene)
    requires
        a.is_fresh(),
        b.is_fresh(),
    ensures
        a == b,
{
    assert(a.ops =~= b.ops);
}

// ── Coordinates ──────────────────────────────────────────────────────────────

/// Map portrait logical `(x, y)` to the panel's `(column, row)`, or `None`
/// when the point is off screen.
pub fn logical_to_physical(x: i32, y: i32) -> (r: Option<(usize, usize)>)
    ensures
        match spec_logical_to_physical(x as int, y as int) {
            None => r is None,
            Some((c, row)) => r == Some((c as usize, row as usize)),
        },
{
    if x < 0 || y < 0 || x >= PD_SCREEN_WIDTH || y >= PD_SCREEN_HEIGHT {
        return None;
    }
    Some((y as usize, PANEL_HEIGHT as usize - 1 - x as usize))
}

fn normalize_color(color: u8) -> (c: u8)
    ensures
        c == spec_normalize(color),
{
    if color == 0 {
        0x00
    } else {
        0xFF
    }
}

fn clamp_i32(v: i32, lo: i32, hi: i32) -> (r: i32)
    requires
        lo <= hi,
    ensures
        r == clamp(v as int, lo as int, hi as int),
{
    if v < lo {
        lo
    } else if v > hi {
        hi
    } else {
        v
    }
}

fn logical_rect_to_physical(x: i32, y: i32, w: i32, h: i32) -> (r: Option<PhysicalRect>)
    requires
        w <= 0 || h <= 0 || (x + w <= i32::MAX && y + h <= i32::MAX),
    ensures
        match spec_physical_rect(x as int, y as int, w as int, h as int) {
            None => r is None,
            Some(s) => r matches Some(p) && p.x0 == s.0 && p.y0 == s.1 && p.x1 == s.2 && p.y1
                == s.3,
        },
{
    if w <= 0 || h <= 0 {
        return None;
    }
    let x0 = clamp_i32(x, 0, PD_SCREEN_WIDTH);
    let y0 = clamp_i32(y, 0, PD_SCREEN_HEIGHT);
    let x1 = clamp_i32(x + w, 0, PD_SCREEN_WIDTH);
    let y1 = clamp_i32(y + h, 0, PD_SCREEN_HEIGHT);

    if x0 >= x1 || y0 >= y1 {
        return None;
    }
    Some(
        PhysicalRect {
            x0: y0 as usize,
            y0: PANEL_HEIGHT as usize - x1 as usize,
            x1: y1 as usize,
            y1: PANEL_HEIGHT as usize - x0 as usize,
        },
    )
}

// ── Rendering ────────────────────────────────────────────────────────────────

/// Two pixels of a packed row live in the same byte exactly when they share a
/// row and a byte column.
proof fn lemma_pixel_byte_index(r: int, c: int, r2: int, c2: int)
    requires
        0 <= r,
        0 <= r2,
        0 <= c < 800,
        0 <= c2 < 800,
    ensures
        (r * 100 + c / 8 == r2 * 100 + c2 / 8) <==> (r == r2 && c / 8 == c2 / 8),
        (r == r2 && c / 8 == c2 / 8 && c % 8 == c2 % 8) ==> c == c2,
{
}

fn apply_mask(byte: &mut u8, mask: u8, color: u8)
    ensures
        forall|j: u8|
            j < 8 ==> #[trigger] bit_white(*final(byte), j) == if bit_white(mask, j) {
                color != 0
            } else {
                bit_white(*old(byte), j)
            },
{
    if color != 0 {
        *byte = *byte | mask;
        assert forall|j: u8| j < 8 implies #[trigger] bit_white(*byte, j) == if bit_white(mask, j) {
            color != 0
        } else {
            bit_white(*old(byte), j)
        } by {
            lemma_or_mask(*old(byte), mask, j);
        }
    } else {
        *byte = *byte & !mask;
        assert forall|j: u8| j < 8 implies #[trigger] bit_white(*byte, j) == if bit_white(mask, j) {
            color != 0
        } else {
            bit_white(*old(byte), j)
        } by {
            lemma_clear_mask(*old(byte), mask, j);
        }
    }
}

pub(crate) fn set_strip_pixel(dst: &mut [u8], row_start: usize, row_count: usize, px: usize, py: usize, color: u8)
    requires
        px < 800,
        row_start + row_count <= usize::MAX,
        old(dst)@.len() >= row_count * 100,
    ensures
        tail_kept(final(dst)@, old(dst)@, row_count * 100),
        forall|r: int, c: int|
            0 <= r < row_count && 0 <= c < 800 ==> #[trigger] row_pixel(final(dst)@, r, c) == if r
                + row_start == py && c == px {
                color != 0
            } else {
                row_pixel(old(dst)@, r, c)
            },
{
    let len = dst.len();
    if py < row_start || py >= row_start + row_count {
        return;
    }

    let local_row = py - row_start;
    let byte_idx = local_row * ROW_BYTES + px / 8;
    let bit = (px % 8) as u8;
    let bit_mask = 0x80u8 >> bit;
    let mut b = dst[byte_idx];
    apply_mask(&mut b, bit_mask, color);
    dst[byte_idx] = b;
    assert forall|r: int, c: int| 0 <= r < row_count && 0 <= c < 800 implies #[trigger] row_pixel(
        dst@,
        r,
        c,
    ) == if r + row_start == py && c == px {
        color != 0
    } else {
        row_pixel(old(dst)@, r, c)
    } by {
        lemma_pixel_byte_index(r, c, local_row as int, px as int);
        if r * 100 + c / 8 == byte_idx {
            lemma_single_mask(bit, (c % 8) as u8);
        }
    }
}

fn fill_row_span(dst: &mut [u8], local_row: usize, x0: usize, x1: usize, color: u8)
    requires
        x0 < x1 ==> x1 <= 800 && (local_row + 1) * 100 <= old(dst)@.len(),
    ensures
        final(dst)@.len() == old(dst)@.len(),
        forall|i: int|
            0 <= i < final(dst)@.len() && (i < local_row * 100 || i >= local_row * 100 + 100)
                ==> #[trigger] final(dst)@[i] == old(dst)@[i],
        forall|r: int, c: int|
            0 <= r && 0 <= c < 800 && r * 100 + 100 <= old(dst)@.len() ==> #[trigger] row_pixel(
                final(dst)@,
                r,
                c,
            ) == if r == local_row && x0 <= c < x1 {
                color != 0
            } else {
                row_pixel(old(dst)@, r, c)
            },
{
    if x0 >= x1 {
        return;
    }
    let len = dst.len();
    let base = local_row * ROW_BYTES;
    let first_byte = x0 / 8;
    let last_byte = (x1 - 1) / 8;
    let first_bit = (x0 % 8) as u8;
    let last_bit = ((x1 - 1) % 8) as u8;
    let first_mask = 0xFFu8 >> first_bit;
    let last_mask = 0xFFu8 << (7 - last_bit);

    if first_byte == last_byte {
        let mut b = dst[base + first_byte];
        apply_mask(&mut b, first_mask & last_mask, color);
        dst[base + first_byte] = b;
        assert forall|r: int, c: int|
            0 <= r && 0 <= c < 800 && r * 100 + 100 <= old(dst)@.len() implies #[trigger] row_pixel(
            dst@,
            r,
            c,
        ) == if r == local_row && x0 <= c < x1 {
            color != 0
        } else {
            row_pixel(old(dst)@, r, c)
        } by {
            lemma_pixel_byte_index(r, c, local_row as int, x0 as int);
            if r == local_row && c / 8 == first_byte {
                let j = (c % 8) as u8;
                lemma_both_masks(first_mask, last_mask, j);
                lemma_first_mask(first_bit, j);
                lemma_last_mask(last_bit, j);
            }
        }
        return;
    }
    let ghost before = dst@;
    let mut b = dst[base + first_byte];
    apply_mask(&mut b, first_mask, color);
    dst[base + first_byte] = b;

    let fill = normalize_color(color);
    let mut k = first_byte + 1;
    while k < last_byte
        invariant
            first_byte < k <= last_byte < 100,
            base == local_row * 100,
            (local_row + 1) * 100 <= dst@.len(),
            dst@.len() == before.len(),
            fill == spec_normalize(color),
            forall|i: int|
                0 <= i < dst@.len() && i != base + first_byte && !(base + first_byte < i < base + k)
                    ==> #[trigger] dst@[i] == before[i],
            forall|i: int| base + first_byte < i < base + k ==> #[trigger] dst@[i] == fill,
            forall|j: u8|
                j < 8 ==> #[trigger] bit_white(dst@[base + first_byte], j) == if bit_white(
                    first_mask,
                    j,
                ) {
                    color != 0
                } else {
                    bit_white(before[base + first_byte], j)
                },
        decreases last_byte - k,
    {
        dst[base + k] = fill;
        k += 1;
    }
    let mut b = dst[base + last_byte];
    apply_mask(&mut b, last_mask, color);
    dst[base + last_byte] = b;
    assert forall|r: int, c: int|
        0 <= r && 0 <= c < 800 && r * 100 + 100 <= old(dst)@.len() implies #[trigger] row_pixel(
        dst@,
        r,
        c,
    ) == if r == local_row && x0 <= c < x1 {
        color != 0
    } else {
        row_pixel(old(dst)@, r, c)
    } by {
        lemma_pixel_byte_index(r, c, local_row as int, x0 as int);
        lemma_pixel_byte_index(r, c, local_row as int, (x1 - 1) as int);
        let j = (c % 8) as u8;
        if r == local_row {
            if c / 8 == first_byte {
                lemma_first_mask(first_bit, j);
            } else if c / 8 == last_byte {
                lemma_last_mask(last_bit, j);
            } else if first_byte < c / 8 < last_byte {
                lemma_solid_bytes(j);
            }
        }
    }
}

fn render_pixel(dst: &mut [u8], row_start: usize, row_count: usize, x: i32, y: i32, color: u8)
    requires
        row_start + row_count <= usize::MAX,
        old(dst)@.len() >= row_count * 100,
    ensures
        tail_kept(final(dst)@, old(dst)@, row_count * 100),
        forall|r: int, c: int|
            0 <= r < row_count && 0 <= c < 800 ==> #[trigger] row_pixel(final(dst)@, r, c) == if op_covers(
                DisplayOp::Pixel { x, y, color },
                row_start + r,
                c,
            ) {
                color != 0
            } else {
                row_pixel(old(dst)@, r, c)
            },
{
    match logical_to_physical(x, y) {
        None => {},
        Some((px, py)) => {
            set_strip_pixel(dst, row_start, row_count, px, py, color);
        },
    }
}

fn render_fill_rect(
    dst: &mut [u8],
    row_start: usize,
    row_count: usize,
    x: i32,
    y: i32,
    w: i32,
    h: i32,
    color: u8,
)
    requires
        row_start + row_count <= usize::MAX,
        old(dst)@.len() >= row_count * 100,
        w <= 0 || h <= 0 || (x + w <= i32::MAX && y + h <= i32::MAX),
    ensures
        tail_kept(final(dst)@, old(dst)@, row_count * 100),
        forall|r: int, c: int|
            0 <= r < row_count && 0 <= c < 800 ==> #[trigger] row_pixel(final(dst)@, r, c) == if op_covers(
                DisplayOp::FillRect { x, y, w, h, color },
                row_start + r,
                c,
            ) {
                color != 0
            } else {
                row_pixel(old(dst)@, r, c)
            },
{
    let rect = match logical_rect_to_physical(x, y, w, h) {
        Some(r) => r,
        None => return ,
    };
    let strip_end = row_start + row_count;
    let y0 = if rect.y0 > row_start {
        rect.y0
    } else {
        row_start
    };
    let y1 = if rect.y1 < strip_end {
        rect.y1
    } else {
        strip_end
    };
    if y0 >= y1 {
        return ;
    }
    let mut py = y0;
    while py < y1
        invariant
            row_start <= y0 <= py <= y1 <= strip_end,
            strip_end == row_start + row_count,
            rect.x0 < rect.x1 <= 800,
            dst@.len() >= row_count * 100,
            tail_kept(dst@, old(dst)@, row_count * 100),
            forall|r: int, c: int|
                0 <= r < row_count && 0 <= c < 800 ==> #[trigger] row_pixel(dst@, r, c) == if y0
                    <= row_start + r < py && rect.x0 <= c < rect.x1 {
                    color != 0
                } else {
                    row_pixel(old(dst)@, r, c)
                },
        decreases y1 - py,
    {
        let ghost prev = dst@;
        fill_row_span(dst, py - row_start, rect.x0, rect.x1, color);
        assert forall|r: int, c: int| 0 <= r < row_count && 0 <= c < 800 implies #[trigger] row_pixel(
            dst@,
            r,
            c,
        ) == if y0 <= row_start + r < py + 1 && rect.x0 <= c < rect.x1 {
            color != 0
        } else {
            row_pixel(old(dst)@, r, c)
        } by {
            assert(row_pixel(dst@, r, c) == if r == py - row_start && rect.x0 <= c < rect.x1 {
                color != 0
            } else {
                row_pixel(prev, r, c)
            });
        }
        py += 1;
    }
}

fn render_draw_rect(
    dst: &mut [u8],
    row_start: usize,
    row_count: usize,
    x: i32,
    y: i32,
    w: i32,
    h: i32,
    color: u8,
)
    requires
        row_start + row_count <= usize::MAX,
        old(dst)@.len() >= row_count * 100,
        w <= 0 || h <= 0 || (x + w <= i32::MAX && y + h <= i32::MAX),
    ensures
        tail_kept(final(dst)@, old(dst)@, row_count * 100),
        forall|r: int, c: int|
            0 <= r < row_count && 0 <= c < 800 ==> #[trigger] row_pixel(final(dst)@, r, c) == if op_covers(
                DisplayOp::DrawRect { x, y, w, h, color },
                row_start + r,
                c,
            ) {
                color != 0
            } else {
                row_pixel(old(dst)@, r, c)
            },
{
    let rect = match logical_rect_to_physical(x, y, w, h) {
        Some(r) => r,
        None => return ,
    };
    let ghost rx0 = rect.x0 as int;
    let ghost rx1 = rect.x1 as int;
    let ghost ry0 = rect.y0 as int;
    let ghost ry1 = rect.y1 as int;
    // Which edges of the outline are on screen: logical column `x + w - 1` is
    // panel row `ry0`, column `x` is row `ry1 - 1`, logical rows `y` and
    // `y + h - 1` are panel columns `rx0` and `rx1 - 1`.
    let far_col = x + w <= PD_SCREEN_WIDTH;
    let near_col = x >= 0;
    let near_row = y >= 0;
    let far_row = y + h <= PD_SCREEN_HEIGHT;
    let strip_end = row_start + row_count;
    let ghost prev0 = dst@;
    if far_col && rect.y0 >= row_start && rect.y0 < strip_end {
        fill_row_span(dst, rect.y0 - row_start, rect.x0, rect.x1, color);
    }
    let ghost prev1 = dst@;
    assert forall|r: int, c: int| 0 <= r < row_count && 0 <= c < 800 implies #[trigger] row_pixel(
        prev1,
        r,
        c,
    ) == if far_col && row_start + r == ry0 && rx0 <= c < rx1 {
        color != 0
    } else {
        row_pixel(prev0, r, c)
    } by {}
    let bottom = rect.y1 - 1;
    if near_col && bottom >= row_start && bottom < strip_end {
        fill_row_span(dst, bottom - row_start, rect.x0, rect.x1, color);
    }
    let ghost prev2 = dst@;
    assert forall|r: int, c: int| 0 <= r < row_count && 0 <= c < 800 implies #[trigger] row_pixel(
        prev2,
        r,
        c,
    ) == if ((far_col && row_start + r == ry0) || (near_col && row_start + r == ry1 - 1)) && rx0
        <= c < rx1 {
        color != 0
    } else {
        row_pixel(prev0, r, c)
    } by {
        assert(row_pixel(prev1, r, c) == if far_col && row_start + r == ry0 && rx0 <= c < rx1 {
            color != 0
        } else {
            row_pixel(prev0, r, c)
        });
    }

    let side_y0 = if rect.y0 > row_start {
        rect.y0
    } else {
        row_start
    };
    let side_y1 = if rect.y1 < strip_end {
        rect.y1
    } else {
        strip_end
    };
    let mut py = side_y0;
    while py < side_y1
        invariant
            side_y0 <= py,
            py == side_y0 || py <= side_y1,
            side_y0 == if ry0 > row_start {
                ry0
            } else {
                row_start as int
            },
            side_y1 == if ry1 < strip_end {
                ry1
            } else {
                strip_end as int
            },
            side_y1 <= strip_end,
            strip_end == row_start + row_count,
            rect.x0 as int == rx0,
            rect.x1 as int == rx1,
            0 <= rx0 < rx1 <= 800,
            dst@.len() >= row_count * 100,
            tail_kept(dst@, prev0, row_count * 100),
            forall|r: int, c: int|
                0 <= r < row_count && 0 <= c < 800 ==> #[trigger] row_pixel(dst@, r, c) == if (((
                far_col && row_start + r == ry0) || (near_col && row_start + r == ry1 - 1)) && rx0
                    <= c < rx1) || (side_y0 <= row_start + r < py && ((near_row && c == rx0) || (
                far_row && c == rx1 - 1))) {
                    color != 0
                } else {
                    row_pixel(prev0, r, c)
                },
        decreases side_y1 - py,
    {
        if near_row {
            set_strip_pixel(dst, row_start, row_count, rect.x0, py, color);
        }
        if far_row {
            set_strip_pixel(dst, row_start, row_count, rect.x1 - 1, py, color);
        }
        py += 1;
    }
    assert forall|r: int, c: int| 0 <= r < row_count && 0 <= c < 800 implies #[trigger] row_pixel(
        dst@,
        r,
        c,
    ) == if op_covers(DisplayOp::DrawRect { x, y, w, h, color }, row_start + r, c) {
        color != 0
    } else {
        row_pixel(old(dst)@, r, c)
    } by {
        assert(spec_physical_rect(x as int, y as int, w as int, h as int) == Some((rx0, ry0, rx1, ry1)));
    }
}

/// Whether every rectangle in `scene` has its far corner inside `i32`, so
/// that the scene can be rendered.
pub fn scene_fits_i32(scene: &DisplayScene) -> (b: bool)
    ensures
        b == ops_fit_i32(scene.op_seq()),
{
    let ops = scene.ops();
    let mut i: usize = 0;
    while i < ops.len()
        invariant
            i <= ops@.len(),
            ops@ == scene.op_seq(),
            forall|k: int| 0 <= k < i ==> #[trigger] op_fits_i32(ops@[k]),
        decreases ops@.len() - i,
    {
        let fits = match ops[i] {
            DisplayOp::DrawRect { x, y, w, h, .. } => w <= 0 || h <= 0 || (x.checked_add(w).is_some()
                && y.checked_add(h).is_some()),
            DisplayOp::FillRect { x, y, w, h, .. } => w <= 0 || h <= 0 || (x.checked_add(w).is_some()
                && y.checked_add(h).is_some()),
            _ => true,
        };
        if !fits {
            assert(!op_fits_i32(ops@[i as int]));
            return false;
        }
        i += 1;
    }
    true
}

/// Render the rows `[row_start, row_start + row_count)` of `scene` into the
/// first `row_count * ROW_BYTES` bytes of `dst`.
pub fn render_scene_strip(scene: &DisplayScene, row_start: u16, row_count: u16, dst: &mut [u8])
    requires
        old(dst)@.len() >= row_count * 100,
        ops_fit_i32(scene.op_seq()),
    ensures
        tail_kept(final(dst)@, old(dst)@, row_count * 100),
        forall|r: int, c: int|
            0 <= r < row_count && 0 <= c < 800 ==> #[trigger] row_pixel(final(dst)@, r, c)
                == scene_pixel(scene.op_seq(), scene.background(), row_start + r, c),
        final(dst)@.subrange(0, row_count * 100) == scene_strip_bytes(
            scene.op_seq(),
            scene.background(),
            row_start as int,
            row_count as int,
        ),
{
    let row_start = row_start as usize;
    let row_count = row_count as usize;
    let byte_count = row_count * ROW_BYTES;
    let clear = scene.clear_color();

    let mut i: usize = 0;
    while i < byte_count
        invariant
            i <= byte_count == row_count * 100,
            dst@.len() == old(dst)@.len(),
            dst@.len() >= byte_count,
            forall|k: int| 0 <= k < dst@.len() ==> #[trigger] dst@[k] == if k < i {
                clear
            } else {
                old(dst)@[k]
            },
        decreases byte_count - i,
    {
        dst[i] = clear;
        i += 1;
    }
    let ops = scene.ops();
    let mut k: usize = 0;
    assert forall|r: int, c: int| 0 <= r < row_count && 0 <= c < 800 implies #[trigger] row_pixel(
        dst@,
        r,
        c,
    ) == scene_pixel_upto(ops@, 0, clear, row_start + r, c) by {
        assert(r * 100 + c / 8 < byte_count);
    }
    while k < ops.len()
        invariant
            k <= ops@.len(),
            ops@ == scene.op_seq(),
            ops_fit_i32(ops@),
            clear == scene.background(),
            row_start < 65536,
            row_count < 65536,
            byte_count == row_count * 100,
            tail_kept(dst@, old(dst)@, row_count * 100),
            dst@.len() >= byte_count,
            forall|r: int, c: int|
                0 <= r < row_count && 0 <= c < 800 ==> #[trigger] row_pixel(dst@, r, c)
                    == scene_pixel_upto(ops@, k as int, clear, row_start + r, c),
        decreases ops@.len() - k,
    {
        let op = ops[k];
        assert(op_fits_i32(ops@[k as int]));
        match op {
            DisplayOp::Noop => {},
            DisplayOp::Pixel { x, y, color } => render_pixel(dst, row_start, row_count, x, y, color),
            DisplayOp::DrawRect { x, y, w, h, color } => render_draw_rect(
                dst,
                row_start,
                row_count,
                x,
                y,
                w,
                h,
                color,
            ),
            DisplayOp::FillRect { x, y, w, h, color } => render_fill_rect(
                dst,
                row_start,
                row_count,
                x,
                y,
                w,
                h,
                color,
            ),
        }
        k += 1;
    }
    let ghost fin = dst@;
    assert forall|i: int| 0 <= i < row_count * 100 implies #[trigger] fin.subrange(
        0,
        row_count * 100,
    )[i] == scene_strip_bytes(scene.op_seq(), clear, row_start as int, row_count as int)[i] by {
        lemma_byte_from_pixels(fin, i);
        let w1 = |j: int| row_pixel(fin, i / 100, (i % 100) * 8 + j);
        let w2 = |j: int| scene_pixel(scene.op_seq(), clear, row_start + i / 100, (i % 100) * 8 + j);
        assert forall|j: int| 0 <= j < 8 implies #[trigger] w1(j) == w2(j) by {
            assert(row_pixel(fin, i / 100, (i % 100) * 8 + j) == scene_pixel_upto(
                ops@,
                ops@.len() as int,
                clear,
                row_start + i / 100,
                (i % 100) * 8 + j,
            ));
        }
        lemma_bits_byte_ext(w1, w2, 8);
    }
    assert(fin.subrange(0, row_count * 100) =~= scene_strip_bytes(
        scene.op_seq(),
        clear,
        row_start as int,
        row_count as int,
    ));
}

} // verus!
