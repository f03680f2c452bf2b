use vstd::prelude::*;

use crate::abi::{PD_BTN_DOWN, PD_BTN_OK, PD_BTN_UP, PD_SCREEN_WIDTH};
use crate::storage::fs::{EntryType, PdDirEntry};
use crate::syscall::display::{
    display_clear_to, fill_rect_in, frame_pixel, on_screen, set_pixel_in, FrameBuffer,
};

verus! {

/// Maximum number of apps the launcher will track in a single scan.
pub const MAX_APPS: usize = 16;

/// Pixel height of each app row in the launcher list.
pub const LAUNCHER_ROW_HEIGHT: i32 = 48;

const GLYPH_WIDTH: i32 = 5;
const GLYPH_HEIGHT: i32 = 7;
const GLYPH_SCALE: i32 = 4;
const GLYPH_ADVANCE: i32 = 24;
const LAUNCHER_TEXT_X: i32 = 16;
const LAUNCHER_TEXT_Y_PADDING: i32 = 10;

/// Metadata for one discovered application.
#[derive(Clone, Copy, Debug)]
pub struct AppInfo {
    /// Raw FAT 8.3 directory name: bytes 0–7 = base, 8–10 = extension (space-padded).
    pub filename: [u8; 11],
}

impl AppInfo {
    fn zeroed() -> (a: Self)
        ensures
            forall|i: int| 0 <= i < 11 ==> #[trigger] a.filename@[i] == 0x20u8,
    {
        Self { filename: [0x20u8; 11] }
    }
}

impl Default for AppInfo {
    fn default() -> (a: Self)
        ensures
            forall|i: int| 0 <= i < 11 ==> #[trigger] a.filename@[i] == 0x20u8,
    {
        Self::zeroed()
    }
}

// ── Scanning ─────────────────────────────────────────────────────────────────

/// Whether a directory entry is an application: a file whose 8.3 extension is `PDB`.
pub open spec fn is_app_entry(entry: PdDirEntry) -> bool {
    entry.entry_type == EntryType::File && entry.name@[8] == 0x50u8 && entry.name@[9] == 0x44u8
        && entry.name@[10] == 0x42u8
}

/// The app scan's decision for one directory entry, with `count` apps found
/// so far: applications are stored in order until `MAX_APPS` are held, when the
/// scan stops (`None`); other entries are skipped.
pub fn scan_apps_step(entry: &PdDirEntry, apps: &mut [AppInfo; MAX_APPS], count: usize) -> (r:
    Option<usize>)
    requires
        count <= MAX_APPS,
    ensures
        !is_app_entry(*entry) ==> r == Some(count) && final(apps)@ == old(apps)@,
        is_app_entry(*entry) && count >= MAX_APPS ==> r is None && final(apps)@ == old(apps)@,
        is_app_entry(*entry) && count < MAX_APPS ==> {
            &&& r == Some((count + 1) as usize)
            &&& final(apps)@ == old(apps)@.update(count as int, AppInfo { filename: entry.name })
        },
{
    if entry.entry_type != EntryType::File {
        return Some(count);
    }
    if entry.name[8] != 0x50u8 || entry.name[9] != 0x44u8 || entry.name[10] != 0x42u8 {
        return Some(count);
    }
    if count >= MAX_APPS {
        return None;
    }
    apps[count] = AppInfo { filename: entry.name };
    Some(count + 1)
}

// ── 8.3 names ────────────────────────────────────────────────────────────────

/// The length of the run of non-space bytes of `f` starting at `lo`, stopping at `hi`.
pub open spec fn run_len(f: Seq<u8>, lo: int, hi: int) -> int
    decreases hi - lo,
{
    if lo >= hi || f[lo] == 0x20u8 {
        0
    } else {
        1 + run_len(f, lo + 1, hi)
    }
}

/// `NAME.EXT` from a space-padded 8.3 name: the base up to its first space, and,
/// when the extension is not all spaces, a dot and the extension up to its first space.
pub open spec fn spec_app_name(f: Seq<u8>) -> Seq<u8> {
    let base = f.subrange(0, run_len(f, 0, 8));
    if f[8] != 0x20u8 || f[9] != 0x20u8 || f[10] != 0x20u8 {
        base + seq![0x2Eu8] + f.subrange(8, 8 + run_len(f, 8, 11))
    } else {
        base
    }
}

proof fn lemma_run_len_bounds(f: Seq<u8>, lo: int, hi: int)
    requires
        0 <= lo <= hi <= f.len(),
    ensures
        0 <= run_len(f, lo, hi) <= hi - lo,
        forall|k: int| lo <= k < lo + run_len(f, lo, hi) ==> #[trigger] f[k] != 0x20u8,
        lo + run_len(f, lo, hi) < hi ==> f[lo + run_len(f, lo, hi)] == 0x20u8,
    decreases hi - lo,
{
    if lo < hi && f[lo] != 0x20u8 {
        lemma_run_len_bounds(f, lo + 1, hi);
    }
}

/// Format a raw FAT 8.3 filename as `NAME.EXT` into `out`.
///
/// Returns the number of bytes written; `out` must hold at least 12 bytes.
pub fn format_app_name(filename: &[u8; 11], out: &mut [u8]) -> (len: usize)
    requires
        old(out)@.len() >= 12,
    ensures
        len == spec_app_name(filename@).len(),
        len <= 12,
        final(out)@.len() == old(out)@.len(),
        final(out)@.subrange(0, len as int) == spec_app_name(filename@),
        forall|i: int| len <= i < final(out)@.len() ==> #[trigger] final(out)@[i] == old(out)@[i],
{
    let ghost f = filename@;
    proof {
        lemma_run_len_bounds(f, 0, 8);
        lemma_run_len_bounds(f, 8, 11);
    }
    let mut len: usize = 0;
    while len < 8 && filename[len] != 0x20u8
        invariant
            len <= 8,
            f == filename@,
            old(out)@.len() >= 12,
            out@.len() == old(out)@.len(),
            run_len(f, 0, 8) == len + run_len(f, len as int, 8),
            forall|i: int| 0 <= i < len ==> #[trigger] out@[i] == f[i],
            forall|i: int| len <= i < out@.len() ==> #[trigger] out@[i] == old(out)@[i],
        decreases 8 - len,
    {
        out[len] = filename[len];
        len += 1;
    }
    let base_len = len;
    assert(base_len == run_len(f, 0, 8));

    if filename[8] != 0x20u8 || filename[9] != 0x20u8 || filename[10] != 0x20u8 {
        out[len] = 0x2Eu8;
        len += 1;
        let mut k: usize = 8;
        while k < 11 && filename[k] != 0x20u8
            invariant
                8 <= k <= 11,
                f == filename@,
                len == base_len + 1 + (k - 8),
                base_len <= 8,
                base_len == run_len(f, 0, 8),
                old(out)@.len() >= 12,
                out@.len() == old(out)@.len(),
                run_len(f, 8, 11) == (k - 8) + run_len(f, k as int, 11),
                forall|i: int| 0 <= i < base_len ==> #[trigger] out@[i] == f[i],
                out@[base_len as int] == 0x2Eu8,
                forall|i: int| base_len + 1 <= i < len ==> #[trigger] out@[i] == f[i - base_len + 7],
                forall|i: int| len <= i < out@.len() ==> #[trigger] out@[i] == old(out)@[i],
            decreases 11 - k,
        {
            out[len] = filename[k];
            len += 1;
            k += 1;
        }
        assert(out@.subrange(0, len as int) =~= spec_app_name(f));
    } else {
        assert(out@.subrange(0, len as int) =~= spec_app_name(f));
    }
    len
}

// ── Text ─────────────────────────────────────────────────────────────────────

/// ASCII upper case, as `u8::to_ascii_uppercase`.
pub open spec fn spec_ascii_upper(ch: u8) -> u8 {
    if 0x61 <= ch <= 0x7A {
        (ch - 32) as u8
    } else {
        ch
    }
}

fn ascii_upper(ch: u8) -> (r: u8)
    ensures
        r == spec_ascii_upper(ch),
{
    if 0x61 <= ch && ch <= 0x7A {
        ch - 32
    } else {
        ch
    }
}

/// The 5×7 bitmap of a character: seven rows, bit 4 is the leftmost column.
pub open spec fn glyph_table(ch: u8) -> [u8; 7] {
    match spec_ascii_upper(ch) {
        0x41 => [0x0E, 0x11, 0x11, 0x1F, 0x11, 0x11, 0x11],
        0x42 => [0x1E, 0x11, 0x11, 0x1E, 0x11, 0x11, 0x1E],
        0x43 => [0x0E, 0x11, 0x10, 0x10, 0x10, 0x11, 0x0E],
        0x44 => [0x1C, 0x12, 0x11, 0x11, 0x11, 0x12, 0x1C],
        0x45 => [0x1F, 0x10, 0x10, 0x1E, 0x10, 0x10, 0x1F],
        0x46 => [0x1F, 0x10, 0x10, 0x1E, 0x10, 0x10, 0x10],
        0x47 => [0x0E, 0x11, 0x10, 0x10, 0x13, 0x11, 0x0E],
        0x48 => [0x11, 0x11, 0x11, 0x1F, 0x11, 0x11, 0x11],
        0x49 => [0x1F, 0x04, 0x04, 0x04, 0x04, 0x04, 0x1F],
        0x4A => [0x01, 0x01, 0x01, 0x01, 0x11, 0x11, 0x0E],
        0x4B => [0x11, 0x12, 0x14, 0x18, 0x14, 0x12, 0x11],
        0x4C => [0x10, 0x10, 0x10, 0x10, 0x10, 0x10, 0x1F],
        0x4D => [0x11, 0x1B, 0x15, 0x15, 0x11, 0x11, 0x11],
        0x4E => [0x11, 0x11, 0x19, 0x15, 0x13, 0x11, 0x11],
        0x4F => [0x0E, 0x11, 0x11, 0x11, 0x11, 0x11, 0x0E],
        0x50 => [0x1E, 0x11, 0x11, 0x1E, 0x10, 0x10, 0x10],
        0x51 => [0x0E, 0x11, 0x11, 0x11, 0x15, 0x12, 0x0D],
        0x52 => [0x1E, 0x11, 0x11, 0x1E, 0x14, 0x12, 0x11],
        0x53 => [0x0F, 0x10, 0x10, 0x0E, 0x01, 0x01, 0x1E],
        0x54 => [0x1F, 0x04, 0x04, 0x04, 0x04, 0x04, 0x04],
        0x55 => [0x11, 0x11, 0x11, 0x11, 0x11, 0x11, 0x0E],
        0x56 => [0x11, 0x11, 0x11, 0x11, 0x11, 0x0A, 0x04],
        0x57 => [0x11, 0x11, 0x11, 0x15, 0x15, 0x15, 0x0A],
        0x58 => [0x11, 0x11, 0x0A, 0x04, 0x0A, 0x11, 0x11],
        0x59 => [0x11, 0x11, 0x0A, 0x04, 0x04, 0x04, 0x04],
        0x5A => [0x1F, 0x01, 0x02, 0x04, 0x08, 0x10, 0x1F],
        0x30 => [0x0E, 0x11, 0x13, 0x15, 0x19, 0x11, 0x0E],
        0x31 => [0x04, 0x0C, 0x14, 0x04, 0x04, 0x04, 0x1F],
        0x32 => [0x0E, 0x11, 0x01, 0x02, 0x04, 0x08, 0x1F],
        0x33 => [0x1E, 0x01, 0x01, 0x0E, 0x01, 0x01, 0x1E],
        0x34 => [0x02, 0x06, 0x0A, 0x12, 0x1F, 0x02, 0x02],
        0x35 => [0x1F, 0x10, 0x10, 0x1E, 0x01, 0x01, 0x1E],
        0x36 => [0x0E, 0x10, 0x10, 0x1E, 0x11, 0x11, 0x0E],
        0x37 => [0x1F, 0x01, 0x02, 0x04, 0x08, 0x08, 0x08],
        0x38 => [0x0E, 0x11, 0x11, 0x0E, 0x11, 0x11, 0x0E],
        0x39 => [0x0E, 0x11, 0x11, 0x0F, 0x01, 0x01, 0x0E],
        0x2E => [0x00, 0x00, 0x00, 0x00, 0x00, 0x0C, 0x0C],
        0x2D => [0x00, 0x00, 0x00, 0x1F, 0x00, 0x00, 0x00],
        0x5F => [0x00, 0x00, 0x00, 0x00, 0x00, 0x00, 0x1F],
        0x20 => [0x00, 0x00, 0x00, 0x00, 0x00, 0x00, 0x00],
        _ => [0x1F, 0x11, 0x02, 0x04, 0x04, 0x00, 0x04],
    }
}

/// Whether cell `(row, col)` of the bitmap of `ch` is ink.
pub open spec fn glyph_bit(ch: u8, row: int, col: int) -> bool {
    glyph_table(ch)@[row] & (1u8 << ((4 - col) as u8)) != 0
}

/// Whether the glyph of `ch` drawn at `(x, y)` (each cell a 4×4 block) inks
/// logical pixel `(lx, ly)`.
pub open spec fn glyph_covers(ch: u8, x: int, y: int, lx: int, ly: int) -> bool {
    let dx = lx - x;
    let dy = ly - y;
    0 <= dx < 20 && 0 <= dy < 28 && glyph_bit(ch, dy / 4, dx / 4)
}

/// Whether `text` drawn at `(x, y)` (one glyph every 24 pixels) inks `(lx, ly)`.
pub open spec fn text_covers(text: Seq<u8>, x: int, y: int, lx: int, ly: int) -> bool {
    let dx = lx - x;
    0 <= dx && dx / 24 < text.len() && glyph_covers(text[dx / 24], x + (dx / 24) * 24, y, lx, ly)
}

/// Drawing two texts one after the other is drawing their concatenation:
/// `a + b` at `x` inks exactly what `a` at `x` and `b` at `x + 24 * |a|` ink.
pub proof fn law_text_concat(a: Seq<u8>, b: Seq<u8>, x: int, y: int, lx: int, ly: int)
    ensures
        text_covers(a + b, x, y, lx, ly) == (text_covers(a, x, y, lx, ly) || text_covers(
            b,
            x + 24 * a.len(),
            y,
            lx,
            ly,
        )),
{
    let dx = lx - x;
    let n = a.len() as int;
    let dx2 = lx - (x + 24 * n);
    if dx >= 0 {
        let k = dx / 24;
        if k < n {
            assert((a + b)[k] == a[k]);
            assert(dx2 < 0) by (nonlinear_arith)
                requires
                    k == dx / 24,
                    k < n,
                    dx >= 0,
                    dx2 == dx - 24 * n,
            ;
        } else {
            assert(dx2 >= 0 && dx2 / 24 == k - n) by (nonlinear_arith)
                requires
                    k == dx / 24,
                    k >= n,
                    dx >= 0,
                    n >= 0,
                    dx2 == dx - 24 * n,
            ;
            assert(x + 24 * n + (dx2 / 24) * 24 == x + k * 24);
            if k < n + b.len() {
                assert((a + b)[k] == b[k - n]);
            }
        }
    } else {
        assert(dx2 < 0);
    }
}

/// Whether `ch` has a glyph of its own: a letter of either case, a digit,
/// `.`, `-`, `_` or space.
pub open spec fn has_glyph(ch: u8) -> bool {
    (0x41 <= ch <= 0x5A) || (0x61 <= ch <= 0x7A) || (0x30 <= ch <= 0x39) || ch == 0x2E || ch
        == 0x2D || ch == 0x5F || ch == 0x20
}

/// The font is case-blind, five columns wide, draws space as blank and every
/// character without a glyph as the fallback box.
pub proof fn law_glyph_table(ch: u8)
    ensures
        glyph_table(ch) == glyph_table(spec_ascii_upper(ch)),
        forall|i: int| 0 <= i < 7 ==> #[trigger] glyph_table(ch)@[i] < 0x20,
        glyph_table(0x20)@ == seq![0u8, 0, 0, 0, 0, 0, 0],
        !has_glyph(ch) ==> glyph_table(ch)@ == seq![0x1Fu8, 0x11, 0x02, 0x04, 0x04, 0x00, 0x04],
        glyph_table(0x61)@ == seq![0x0Eu8, 0x11, 0x11, 0x1F, 0x11, 0x11, 0x11],
{
    assert(glyph_table(0x20)@ =~= seq![0u8, 0, 0, 0, 0, 0, 0]);
    assert(glyph_table(0x61)@ =~= seq![0x0Eu8, 0x11, 0x11, 0x1F, 0x11, 0x11, 0x11]);
    if !has_glyph(ch) {
        assert(glyph_table(ch)@ =~= seq![0x1Fu8, 0x11, 0x02, 0x04, 0x04, 0x00, 0x04]);
    }
}

/// The built-in font, glyph by glyph: the exact 5×7 bitmap (seven rows, bit 4
/// the leftmost column) of every capital letter, digit, `.`, `-`, `_` and
/// space; each lower-case letter draws as its capital.
pub proof fn law_font_bitmaps()
    ensures
        forall|c: u8| 0x61 <= c <= 0x7A ==> #[trigger] glyph_table(c) == glyph_table((c - 32) as u8),
        glyph_table(0x41)@ == seq![0x0Eu8, 0x11, 0x11, 0x1F, 0x11, 0x11, 0x11],
        glyph_table(0x42)@ == seq![0x1Eu8, 0x11, 0x11, 0x1E, 0x11, 0x11, 0x1E],
        glyph_table(0x43)@ == seq![0x0Eu8, 0x11, 0x10, 0x10, 0x10, 0x11, 0x0E],
        glyph_table(0x44)@ == seq![0x1Cu8, 0x12, 0x11, 0x11, 0x11, 0x12, 0x1C],
        glyph_table(0x45)@ == seq![0x1Fu8, 0x10, 0x10, 0x1E, 0x10, 0x10, 0x1F],
        glyph_table(0x46)@ == seq![0x1Fu8, 0x10, 0x10, 0x1E, 0x10, 0x10, 0x10],
        glyph_table(0x47)@ == seq![0x0Eu8, 0x11, 0x10, 0x10, 0x13, 0x11, 0x0E],
        glyph_table(0x48)@ == seq![0x11u8, 0x11, 0x11, 0x1F, 0x11, 0x11, 0x11],
        glyph_table(0x49)@ == seq![0x1Fu8, 0x04, 0x04, 0x04, 0x04, 0x04, 0x1F],
        glyph_table(0x4A)@ == seq![0x01u8, 0x01, 0x01, 0x01, 0x11, 0x11, 0x0E],
        glyph_table(0x4B)@ == seq![0x11u8, 0x12, 0x14, 0x18, 0x14, 0x12, 0x11],
        glyph_table(0x4C)@ == seq![0x10u8, 0x10, 0x10, 0x10, 0x10, 0x10, 0x1F],
        glyph_table(0x4D)@ == seq![0x11u8, 0x1B, 0x15, 0x15, 0x11, 0x11, 0x11],
        glyph_table(0x4E)@ == seq![0x11u8, 0x11, 0x19, 0x15, 0x13, 0x11, 0x11],
        glyph_table(0x4F)@ == seq![0x0Eu8, 0x11, 0x11, 0x11, 0x11, 0x11, 0x0E],
        glyph_table(0x50)@ == seq![0x1Eu8, 0x11, 0x11, 0x1E, 0x10, 0x10, 0x10],
        glyph_table(0x51)@ == seq![0x0Eu8, 0x11, 0x11, 0x11, 0x15, 0x12, 0x0D],
        glyph_table(0x52)@ == seq![0x1Eu8, 0x11, 0x11, 0x1E, 0x14, 0x12, 0x11],
        glyph_table(0x53)@ == seq![0x0Fu8, 0x10, 0x10, 0x0E, 0x01, 0x01, 0x1E],
        glyph_table(0x54)@ == seq![0x1Fu8, 0x04, 0x04, 0x04, 0x04, 0x04, 0x04],
        glyph_table(0x55)@ == seq![0x11u8, 0x11, 0x11, 0x11, 0x11, 0x11, 0x0E],
        glyph_table(0x56)@ == seq![0x11u8, 0x11, 0x11, 0x11, 0x11, 0x0A, 0x04],
        glyph_table(0x57)@ == seq![0x11u8, 0x11, 0x11, 0x15, 0x15, 0x15, 0x0A],
        glyph_table(0x58)@ == seq![0x11u8, 0x11, 0x0A, 0x04, 0x0A, 0x11, 0x11],
        glyph_table(0x59)@ == seq![0x11u8, 0x11, 0x0A, 0x04, 0x04, 0x04, 0x04],
        glyph_table(0x5A)@ == seq![0x1Fu8, 0x01, 0x02, 0x04, 0x08, 0x10, 0x1F],
        glyph_table(0x30)@ == seq![0x0Eu8, 0x11, 0x13, 0x15, 0x19, 0x11, 0x0E],
        glyph_table(0x31)@ == seq![0x04u8, 0x0C, 0x14, 0x04, 0x04, 0x04, 0x1F],
        glyph_table(0x32)@ == seq![0x0Eu8, 0x11, 0x01, 0x02, 0x04, 0x08, 0x1F],
        glyph_table(0x33)@ == seq![0x1Eu8, 0x01, 0x01, 0x0E, 0x01, 0x01, 0x1E],
        glyph_table(0x34)@ == seq![0x02u8, 0x06, 0x0A, 0x12, 0x1F, 0x02, 0x02],
        glyph_table(0x35)@ == seq![0x1Fu8, 0x10, 0x10, 0x1E, 0x01, 0x01, 0x1E],
        glyph_table(0x36)@ == seq![0x0Eu8, 0x10, 0x10, 0x1E, 0x11, 0x11, 0x0E],
        glyph_table(0x37)@ == seq![0x1Fu8, 0x01, 0x02, 0x04, 0x08, 0x08, 0x08],
        glyph_table(0x38)@ == seq![0x0Eu8, 0x11, 0x11, 0x0E, 0x11, 0x11, 0x0E],
        glyph_table(0x39)@ == seq![0x0Eu8, 0x11, 0x11, 0x0F, 0x01, 0x01, 0x0E],
        glyph_table(0x2E)@ == seq![0x00u8, 0x00, 0x00, 0x00, 0x00, 0x0C, 0x0C],
        glyph_table(0x2D)@ == seq![0x00u8, 0x00, 0x00, 0x1F, 0x00, 0x00, 0x00],
        glyph_table(0x5F)@ == seq![0x00u8, 0x00, 0x00, 0x00, 0x00, 0x00, 0x1F],
        glyph_table(0x20)@ == seq![0x00u8, 0x00, 0x00, 0x00, 0x00, 0x00, 0x00],
{
    assert(glyph_table(0x41)@ =~= seq![0x0Eu8, 0x11, 0x11, 0x1F, 0x11, 0x11, 0x11]);
    assert(glyph_table(0x42)@ =~= seq![0x1Eu8, 0x11, 0x11, 0x1E, 0x11, 0x11, 0x1E]);
    assert(glyph_table(0x43)@ =~= seq![0x0Eu8, 0x11, 0x10, 0x10, 0x10, 0x11, 0x0E]);
    assert(glyph_table(0x44)@ =~= seq![0x1Cu8, 0x12, 0x11, 0x11, 0x11, 0x12, 0x1C]);
    assert(glyph_table(0x45)@ =~= seq![0x1Fu8, 0x10, 0x10, 0x1E, 0x10, 0x10, 0x1F]);
    assert(glyph_table(0x46)@ =~= seq![0x1Fu8, 0x10, 0x10, 0x1E, 0x10, 0x10, 0x10]);
    assert(glyph_table(0x47)@ =~= seq![0x0Eu8, 0x11, 0x10, 0x10, 0x13, 0x11, 0x0E]);
    assert(glyph_table(0x48)@ =~= seq![0x11u8, 0x11, 0x11, 0x1F, 0x11, 0x11, 0x11]);
    assert(glyph_table(0x49)@ =~= seq![0x1Fu8, 0x04, 0x04, 0x04, 0x04, 0x04, 0x1F]);
    assert(glyph_table(0x4A)@ =~= seq![0x01u8, 0x01, 0x01, 0x01, 0x11, 0x11, 0x0E]);
    assert(glyph_table(0x4B)@ =~= seq![0x11u8, 0x12, 0x14, 0x18, 0x14, 0x12, 0x11]);
    assert(glyph_table(0x4C)@ =~= seq![0x10u8, 0x10, 0x10, 0x10, 0x10, 0x10, 0x1F]);
    assert(glyph_table(0x4D)@ =~= seq![0x11u8, 0x1B, 0x15, 0x15, 0x11, 0x11, 0x11]);
    assert(glyph_table(0x4E)@ =~= seq![0x11u8, 0x11, 0x19, 0x15, 0x13, 0x11, 0x11]);
    assert(glyph_table(0x4F)@ =~= seq![0x0Eu8, 0x11, 0x11, 0x11, 0x11, 0x11, 0x0E]);
    assert(glyph_table(0x50)@ =~= seq![0x1Eu8, 0x11, 0x11, 0x1E, 0x10, 0x10, 0x10]);
    assert(glyph_table(0x51)@ =~= seq![0x0Eu8, 0x11, 0x11, 0x11, 0x15, 0x12, 0x0D]);
    assert(glyph_table(0x52)@ =~= seq![0x1Eu8, 0x11, 0x11, 0x1E, 0x14, 0x12, 0x11]);
    assert(glyph_table(0x53)@ =~= seq![0x0Fu8, 0x10, 0x10, 0x0E, 0x01, 0x01, 0x1E]);
    assert(glyph_table(0x54)@ =~= seq![0x1Fu8, 0x04, 0x04, 0x04, 0x04, 0x04, 0x04]);
    assert(glyph_table(0x55)@ =~= seq![0x11u8, 0x11, 0x11, 0x11, 0x11, 0x11, 0x0E]);
    assert(glyph_table(0x56)@ =~= seq![0x11u8, 0x11, 0x11, 0x11, 0x11, 0x0A, 0x04]);
    assert(glyph_table(0x57)@ =~= seq![0x11u8, 0x11, 0x11, 0x15, 0x15, 0x15, 0x0A]);
    assert(glyph_table(0x58)@ =~= seq![0x11u8, 0x11, 0x0A, 0x04, 0x0A, 0x11, 0x11]);
    assert(glyph_table(0x59)@ =~= seq![0x11u8, 0x11, 0x0A, 0x04, 0x04, 0x04, 0x04]);
    assert(glyph_table(0x5A)@ =~= seq![0x1Fu8, 0x01, 0x02, 0x04, 0x08, 0x10, 0x1F]);
    assert(glyph_table(0x30)@ =~= seq![0x0Eu8, 0x11, 0x13, 0x15, 0x19, 0x11, 0x0E]);
    assert(glyph_table(0x31)@ =~= seq![0x04u8, 0x0C, 0x14, 0x04, 0x04, 0x04, 0x1F]);
    assert(glyph_table(0x32)@ =~= seq![0x0Eu8, 0x11, 0x01, 0x02, 0x04, 0x08, 0x1F]);
    assert(glyph_table(0x33)@ =~= seq![0x1Eu8, 0x01, 0x01, 0x0E, 0x01, 0x01, 0x1E]);
    assert(glyph_table(0x34)@ =~= seq![0x02u8, 0x06, 0x0A, 0x12, 0x1F, 0x02, 0x02]);
    assert(glyph_table(0x35)@ =~= seq![0x1Fu8, 0x10, 0x10, 0x1E, 0x01, 0x01, 0x1E]);
    assert(glyph_table(0x36)@ =~= seq![0x0Eu8, 0x10, 0x10, 0x1E, 0x11, 0x11, 0x0E]);
    assert(glyph_table(0x37)@ =~= seq![0x1Fu8, 0x01, 0x02, 0x04, 0x08, 0x08, 0x08]);
    assert(glyph_table(0x38)@ =~= seq![0x0Eu8, 0x11, 0x11, 0x0E, 0x11, 0x11, 0x0E]);
    assert(glyph_table(0x39)@ =~= seq![0x0Eu8, 0x11, 0x11, 0x0F, 0x01, 0x01, 0x0E]);
    assert(glyph_table(0x2E)@ =~= seq![0x00u8, 0x00, 0x00, 0x00, 0x00, 0x0C, 0x0C]);
    assert(glyph_table(0x2D)@ =~= seq![0x00u8, 0x00, 0x00, 0x1F, 0x00, 0x00, 0x00]);
    assert(glyph_table(0x5F)@ =~= seq![0x00u8, 0x00, 0x00, 0x00, 0x00, 0x00, 0x1F]);
    assert(glyph_table(0x20)@ =~= seq![0x00u8, 0x00, 0x00, 0x00, 0x00, 0x00, 0x00]);
}

fn glyph_rows(ch: u8) -> (r: [u8; 7])
    ensures
        r == glyph_table(ch),
{
    match ascii_upper(ch) {
        0x41 => [0x0E, 0x11, 0x11, 0x1F, 0x11, 0x11, 0x11],
        0x42 => [0x1E, 0x11, 0x11, 0x1E, 0x11, 0x11, 0x1E],
        0x43 => [0x0E, 0x11, 0x10, 0x10, 0x10, 0x11, 0x0E],
        0x44 => [0x1C, 0x12, 0x11, 0x11, 0x11, 0x12, 0x1C],
        0x45 => [0x1F, 0x10, 0x10, 0x1E, 0x10, 0x10, 0x1F],
        0x46 => [0x1F, 0x10, 0x10, 0x1E, 0x10, 0x10, 0x10],
        0x47 => [0x0E, 0x11, 0x10, 0x10, 0x13, 0x11, 0x0E],
        0x48 => [0x11, 0x11, 0x11, 0x1F, 0x11, 0x11, 0x11],
        0x49 => [0x1F, 0x04, 0x04, 0x04, 0x04, 0x04, 0x1F],
        0x4A => [0x01, 0x01, 0x01, 0x01, 0x11, 0x11, 0x0E],
        0x4B => [0x11, 0x12, 0x14, 0x18, 0x14, 0x12, 0x11],
        0x4C => [0x10, 0x10, 0x10, 0x10, 0x10, 0x10, 0x1F],
        0x4D => [0x11, 0x1B, 0x15, 0x15, 0x11, 0x11, 0x11],
        0x4E => [0x11, 0x11, 0x19, 0x15, 0x13, 0x11, 0x11],
        0x4F => [0x0E, 0x11, 0x11, 0x11, 0x11, 0x11, 0x0E],
        0x50 => [0x1E, 0x11, 0x11, 0x1E, 0x10, 0x10, 0x10],
        0x51 => [0x0E, 0x11, 0x11, 0x11, 0x15, 0x12, 0x0D],
        0x52 => [0x1E, 0x11, 0x11, 0x1E, 0x14, 0x12, 0x11],
        0x53 => [0x0F, 0x10, 0x10, 0x0E, 0x01, 0x01, 0x1E],
        0x54 => [0x1F, 0x04, 0x04, 0x04, 0x04, 0x04, 0x04],
        0x55 => [0x11, 0x11, 0x11, 0x11, 0x11, 0x11, 0x0E],
        0x56 => [0x11, 0x11, 0x11, 0x11, 0x11, 0x0A, 0x04],
        0x57 => [0x11, 0x11, 0x11, 0x15, 0x15, 0x15, 0x0A],
        0x58 => [0x11, 0x11, 0x0A, 0x04, 0x0A, 0x11, 0x11],
        0x59 => [0x11, 0x11, 0x0A, 0x04, 0x04, 0x04, 0x04],
        0x5A => [0x1F, 0x01, 0x02, 0x04, 0x08, 0x10, 0x1F],
        0x30 => [0x0E, 0x11, 0x13, 0x15, 0x19, 0x11, 0x0E],
        0x31 => [0x04, 0x0C, 0x14, 0x04, 0x04, 0x04, 0x1F],
        0x32 => [0x0E, 0x11, 0x01, 0x02, 0x04, 0x08, 0x1F],
        0x33 => [0x1E, 0x01, 0x01, 0x0E, 0x01, 0x01, 0x1E],
        0x34 => [0x02, 0x06, 0x0A, 0x12, 0x1F, 0x02, 0x02],
        0x35 => [0x1F, 0x10, 0x10, 0x1E, 0x01, 0x01, 0x1E],
        0x36 => [0x0E, 0x10, 0x10, 0x1E, 0x11, 0x11, 0x0E],
        0x37 => [0x1F, 0x01, 0x02, 0x04, 0x08, 0x08, 0x08],
        0x38 => [0x0E, 0x11, 0x11, 0x0E, 0x11, 0x11, 0x0E],
        0x39 => [0x0E, 0x11, 0x11, 0x0F, 0x01, 0x01, 0x0E],
        0x2E => [0x00, 0x00, 0x00, 0x00, 0x00, 0x0C, 0x0C],
        0x2D => [0x00, 0x00, 0x00, 0x1F, 0x00, 0x00, 0x00],
        0x5F => [0x00, 0x00, 0x00, 0x00, 0x00, 0x00, 0x1F],
        0x20 => [0x00, 0x00, 0x00, 0x00, 0x00, 0x00, 0x00],
        _ => [0x1F, 0x11, 0x02, 0x04, 0x04, 0x00, 0x04],
    }
}

/// Draw the glyph of `ch` with its top-left corner at logical `(x, y)`,
/// each bitmap cell as a 4×4 block of `color`.
fn draw_glyph(buf: &mut FrameBuffer, x: i32, y: i32, ch: u8, color: u8)
    requires
        x + 20 <= i32::MAX,
        y + 28 <= i32::MAX,
    ensures
        forall|lx: int, ly: int|
            on_screen(lx, ly) ==> #[trigger] frame_pixel(final(buf)@, lx, ly) == if glyph_covers(
                ch,
                x as int,
                y as int,
                lx,
                ly,
            ) {
                color != 0
            } else {
                frame_pixel(old(buf)@, lx, ly)
            },
{
    let glyph = glyph_rows(ch);
    let mut row: usize = 0;
    while row < 7
        invariant
            row <= 7,
            glyph == glyph_table(ch),
            x + 20 <= i32::MAX,
            y + 28 <= i32::MAX,
            forall|lx: int, ly: int|
                on_screen(lx, ly) ==> #[trigger] frame_pixel(buf@, lx, ly) == if glyph_covers(
                    ch,
                    x as int,
                    y as int,
                    lx,
                    ly,
                ) && (ly - y) / 4 < row {
                    color != 0
                } else {
                    frame_pixel(old(buf)@, lx, ly)
                },
        decreases 7 - row,
    {
        let bits = glyph[row];
        let mut col: u8 = 0;
        while col < 5
            invariant
                row < 7,
                col <= 5,
                bits == glyph_table(ch)@[row as int],
                x + 20 <= i32::MAX,
                y + 28 <= i32::MAX,
                forall|lx: int, ly: int|
                    on_screen(lx, ly) ==> #[trigger] frame_pixel(buf@, lx, ly) == if glyph_covers(
                        ch,
                        x as int,
                        y as int,
                        lx,
                        ly,
                    ) && ((ly - y) / 4 < row || ((ly - y) / 4 == row && (lx - x) / 4 < col)) {
                        color != 0
                    } else {
                        frame_pixel(old(buf)@, lx, ly)
                    },
            decreases 5 - col,
        {
            if bits & (1u8 << (4 - col)) != 0 {
                let px = x + (col as i32) * GLYPH_SCALE;
                let py = y + (row as i32) * GLYPH_SCALE;
                fill_rect_in(buf, px, py, GLYPH_SCALE, GLYPH_SCALE, color);
            }
            col += 1;
        }
        row += 1;
    }
}

/// Draw `text` left to right from logical `(x, y)` in the built-in font,
/// one glyph every 24 pixels.
pub fn draw_text(buf: &mut FrameBuffer, x: i32, y: i32, text: &[u8], color: u8)
    requires
        x + 24 * text@.len() <= i32::MAX,
        y + 28 <= i32::MAX,
    ensures
        forall|lx: int, ly: int|
            on_screen(lx, ly) ==> #[trigger] frame_pixel(final(buf)@, lx, ly) == if text_covers(
                text@,
                x as int,
                y as int,
                lx,
                ly,
            ) {
                color != 0
            } else {
                frame_pixel(old(buf)@, lx, ly)
            },
{
    let mut cursor_x = x;
    let mut i: usize = 0;
    while i < text.len()
        invariant
            i <= text@.len(),
            cursor_x == x + 24 * i,
            x + 24 * text@.len() <= i32::MAX,
            y + 28 <= i32::MAX,
            forall|lx: int, ly: int|
                on_screen(lx, ly) ==> #[trigger] frame_pixel(buf@, lx, ly) == if text_covers(
                    text@,
                    x as int,
                    y as int,
                    lx,
                    ly,
                ) && (lx - x) / 24 < i {
                    color != 0
                } else {
                    frame_pixel(old(buf)@, lx, ly)
                },
        decreases text@.len() - i,
    {
        draw_glyph(buf, cursor_x, y, text[i], color);
        cursor_x += GLYPH_ADVANCE;
        i += 1;
    }
}

// ── Launcher ─────────────────────────────────────────────────────────────────

/// Cursor state for the launcher selection list.
pub struct LauncherState {
    /// Total number of apps available.
    pub count: usize,
    /// Index of the currently highlighted app (0-based).
    pub selected: usize,
}

/// The selection after moving up: wraps from 0 to `count - 1`; nothing moves
/// when the list is empty.
pub open spec fn spec_move_up(count: usize, selected: usize) -> usize {
    if count == 0 {
        selected
    } else if selected == 0 {
        (count - 1) as usize
    } else {
        (selected - 1) as usize
    }
}

/// The selection after moving down: wraps from `count - 1` to 0; nothing moves
/// when the list is empty.
pub open spec fn spec_move_down(count: usize, selected: usize) -> usize {
    if count == 0 {
        selected
    } else {
        ((selected + 1) % (count as int)) as usize
    }
}

impl LauncherState {
    /// Create a new state for `count` apps; selection starts at 0.
    pub fn new(count: usize) -> (s: Self)
        ensures
            s.count == count,
            s.selected == 0,
    {
        Self { count, selected: 0 }
    }

    /// Move selection up; wraps from 0 to `count - 1`.
    pub fn move_up(&mut self)
        ensures
            final(self).count == old(self).count,
            final(self).selected == spec_move_up(old(self).count, old(self).selected),
    {
        if self.count == 0 {
            return;
        }
        self.selected = if self.selected == 0 {
            self.count - 1
        } else {
            self.selected - 1
        };
    }

    /// Move selection down; wraps from `count - 1` to 0.
    pub fn move_down(&mut self)
        requires
            old(self).count > 0 ==> old(self).selected < usize::MAX,
        ensures
            final(self).count == old(self).count,
            final(self).selected == spec_move_down(old(self).count, old(self).selected),
    {
        if self.count == 0 {
            return;
        }
        self.selected = (self.selected + 1) % self.count;
    }
}

/// Moving down then up comes back to the same app.
pub proof fn law_move_down_then_up(count: usize, selected: usize)
    requires
        selected < count,
    ensures
        spec_move_up(count, spec_move_down(count, selected)) == selected,
{
    if selected + 1 < count {
        vstd::arithmetic::div_mod::lemma_small_mod((selected + 1) as nat, count as nat);
    } else {
        vstd::arithmetic::div_mod::lemma_mod_self_0(count as int);
    }
}

/// Moving up then down comes back to the same app.
pub proof fn law_move_up_then_down(count: usize, selected: usize)
    requires
        selected < count,
    ensures
        spec_move_down(count, spec_move_up(count, selected)) == selected,
{
    if selected == 0 {
        vstd::arithmetic::div_mod::lemma_mod_self_0(count as int);
    } else {
        vstd::arithmetic::div_mod::lemma_small_mod(selected as nat, count as nat);
    }
}

/// Moving never takes a valid selection off the list.
pub proof fn law_selection_stays_in_list(count: usize, selected: usize)
    requires
        selected < count,
    ensures
        spec_move_up(count, selected) < count,
        spec_move_down(count, selected) < count,
{
    vstd::arithmetic::div_mod::lemma_mod_bound((selected + 1) as int, count as int);
}

/// What the launcher loop does after a button mask arrives.
#[derive(Clone, Copy, Debug, Eq, PartialEq, Structural)]
pub enum LauncherAction {
    /// Launch the app at this index.
    Launch(usize),
    /// The selection moved: render and refresh again.
    Redraw,
    /// Nothing changed.
    Idle,
}

/// The launcher's decision for one button mask: Down moves down, else Up moves
/// up, else OK launches the selected app when there is one.
pub open spec fn spec_launcher_step(count: usize, selected: usize, buttons: u32) -> (usize, LauncherAction) {
    if buttons & PD_BTN_DOWN != 0 {
        let s = spec_move_down(count, selected);
        (s, if s != selected { LauncherAction::Redraw } else { LauncherAction::Idle })
    } else if buttons & PD_BTN_UP != 0 {
        let s = spec_move_up(count, selected);
        (s, if s != selected { LauncherAction::Redraw } else { LauncherAction::Idle })
    } else if buttons & PD_BTN_OK != 0 && count > 0 {
        (selected, LauncherAction::Launch(selected))
    } else {
        (selected, LauncherAction::Idle)
    }
}

/// Apply one button mask from the launcher loop to `state`.
pub fn launcher_on_buttons(state: &mut LauncherState, buttons: u32) -> (a: LauncherAction)
    requires
        old(state).count > 0 ==> old(state).selected < usize::MAX,
    ensures
        final(state).count == old(state).count,
        (final(state).selected, a) == spec_launcher_step(
            old(state).count,
            old(state).selected,
            buttons,
        ),
{
    let prev = state.selected;
    if buttons & PD_BTN_DOWN != 0 {
        state.move_down();
    } else if buttons & PD_BTN_UP != 0 {
        state.move_up();
    } else if buttons & PD_BTN_OK != 0 && state.count > 0 {
        return LauncherAction::Launch(state.selected);
    }
    if state.selected != prev {
        LauncherAction::Redraw
    } else {
        LauncherAction::Idle
    }
}

/// The name the launcher shows for an app.
pub open spec fn app_label(app: AppInfo) -> Seq<u8> {
    spec_app_name(app.filename@)
}

/// Whether logical pixel `(lx, ly)` of the launcher screen is white: an app's
/// name is white on the selected row and black elsewhere; the selected row is
/// a black bar; everything else is white.
pub open spec fn launcher_pixel(apps: Seq<AppInfo>, state: LauncherState, lx: int, ly: int) -> bool {
    let i = (ly - 10) / 48;
    if ly >= 10 && i < apps.len() && text_covers(app_label(apps[i]), 16, i * 48 + 10, lx, ly) {
        i == state.selected
    } else {
        !(state.count > 0 && state.selected * 48 <= ly < state.selected * 48 + 48)
    }
}

/// Render the launcher app list into `buf`.
///
/// Fills the background white, draws a solid black highlight bar over the
/// selected row, and renders each 8.3 filename in a scaled built-in bitmap font.
pub fn render_launcher(buf: &mut FrameBuffer, apps: &[AppInfo], state: &LauncherState)
    requires
        apps@.len() * 48 + 38 <= i32::MAX,
        state.count > 0 ==> state.selected * 48 + 48 <= i32::MAX,
    ensures
        forall|lx: int, ly: int|
            on_screen(lx, ly) ==> #[trigger] frame_pixel(final(buf)@, lx, ly) == launcher_pixel(
                apps@,
                *state,
                lx,
                ly,
            ),
{
    display_clear_to(buf, 0xFF);
    assert forall|lx: int, ly: int| on_screen(lx, ly) implies #[trigger] frame_pixel(buf@, lx, ly) by {
        let idx = (479 - lx) * 100 + ly / 8;
        assert(buf@[idx] == 0xFFu8);
        crate::display::bits::lemma_solid_bytes((ly % 8) as u8);
    }
    if state.count > 0 {
        let sel_y = (state.selected as i32) * LAUNCHER_ROW_HEIGHT;
        fill_rect_in(buf, 0, sel_y, PD_SCREEN_WIDTH, LAUNCHER_ROW_HEIGHT, 0x00);
    }
    let mut name = [0u8; 13];
    let mut idx: usize = 0;
    while idx < apps.len()
        invariant
            idx <= apps@.len(),
            apps@.len() * 48 + 38 <= i32::MAX,
            forall|lx: int, ly: int|
                on_screen(lx, ly) ==> #[trigger] frame_pixel(buf@, lx, ly) == if ly >= 10 && (ly - 10)
                    / 48 < idx && text_covers(
                    app_label(apps@[(ly - 10) / 48]),
                    16,
                    ((ly - 10) / 48) * 48 + 10,
                    lx,
                    ly,
                ) {
                    (ly - 10) / 48 == state.selected
                } else {
                    !(state.count > 0 && state.selected * 48 <= ly < state.selected * 48 + 48)
                },
        decreases apps@.len() - idx,
    {
        let len = format_app_name(&apps[idx].filename, &mut name);
        let y = (idx as i32) * LAUNCHER_ROW_HEIGHT + LAUNCHER_TEXT_Y_PADDING;
        let color: u8 = if idx == state.selected {
            0xFF
        } else {
            0x00
        };
        let label = vstd::slice::slice_subrange(name.as_slice(), 0, len);
        assert(label@ == app_label(apps@[idx as int]));
        draw_text(buf, LAUNCHER_TEXT_X, y, label, color);
        idx += 1;
    }
}

} // verus!
