use vstd::prelude::*;

use crate::input::{ButtonEvent, ButtonId};
use crate::launcher::{draw_text, text_covers};
use crate::syscall::display::{
    display_clear_to, draw_rect_in, fill_rect_in, frame_pixel, on_screen, FrameBuffer,
};
use crate::display::bits::lemma_solid_bytes;

verus! {

// ── Shapes ───────────────────────────────────────────────────────────────────

/// Whether logical `(lx, ly)` lies in the rectangle `[x, x + w) × [y, y + h)`.
pub open spec fn in_box(x: int, y: int, w: int, h: int, lx: int, ly: int) -> bool {
    x <= lx < x + w && y <= ly < y + h
}

/// Whether logical `(lx, ly)` lies on the one-pixel outline of that rectangle.
pub open spec fn on_outline(x: int, y: int, w: int, h: int, lx: int, ly: int) -> bool {
    w > 0 && h > 0 && ((x <= lx < x + w && (ly == y || ly == y + h - 1)) || (y + 1 <= ly < y + h
        - 1 && (lx == x || lx == x + w - 1)))
}

/// A frame whose bytes are all `0xFF` is white everywhere on screen.
proof fn lemma_white_frame(buf: Seq<u8>)
    requires
        buf.len() == 48000,
        forall|i: int| 0 <= i < 48000 ==> #[trigger] buf[i] == 0xFFu8,
    ensures
        forall|lx: int, ly: int| on_screen(lx, ly) ==> #[trigger] frame_pixel(buf, lx, ly),
{
    assert forall|lx: int, ly: int| on_screen(lx, ly) implies #[trigger] frame_pixel(buf, lx, ly) by {
        let row = 479 - lx;
        assert(0 <= row * 100 + ly / 8 < 48000) by (nonlinear_arith)
            requires
                0 <= row < 480,
                0 <= ly < 800,
        ;
        lemma_solid_bytes((ly % 8) as u8);
    }
}

// ── Names ────────────────────────────────────────────────────────────────────

/// The label the diagnostics screen shows for a button (`-` for none).
pub open spec fn spec_button_name(id: Option<ButtonId>) -> Seq<u8> {
    match id {
        Some(ButtonId::Up) => seq![0x56u8, 0x4Fu8, 0x4Cu8, 0x55u8, 0x50u8],
        Some(ButtonId::Down) => seq![0x56u8, 0x4Fu8, 0x4Cu8, 0x44u8, 0x4Fu8, 0x57u8, 0x4Eu8],
        Some(ButtonId::Left) => seq![0x4Cu8, 0x45u8, 0x46u8, 0x54u8],
        Some(ButtonId::Right) => seq![0x52u8, 0x49u8, 0x47u8, 0x48u8, 0x54u8],
        Some(ButtonId::Select) => seq![0x43u8, 0x4Fu8, 0x4Eu8, 0x46u8, 0x49u8, 0x52u8, 0x4Du8],
        Some(ButtonId::Back) => seq![0x42u8, 0x41u8, 0x43u8, 0x4Bu8],
        None => seq![0x2Du8],
    }
}

/// The label the diagnostics screen shows for an event's kind (`-` for none).
pub open spec fn spec_event_name(event: Option<ButtonEvent>) -> Seq<u8> {
    match event {
        Some(ButtonEvent::Press(_)) => seq![0x50u8, 0x52u8, 0x45u8, 0x53u8, 0x53u8],
        Some(ButtonEvent::Release(_)) => seq![0x52u8, 0x45u8, 0x4Cu8, 0x45u8, 0x41u8, 0x53u8, 0x45u8],
        Some(ButtonEvent::LongPress(_)) => seq![0x4Cu8, 0x4Fu8, 0x4Eu8, 0x47u8],
        Some(ButtonEvent::Repeat(_)) => seq![0x52u8, 0x45u8, 0x50u8, 0x45u8, 0x41u8, 0x54u8],
        None => seq![0x2Du8],
    }
}

/// The button an event is about, if any.
pub open spec fn spec_event_button(event: Option<ButtonEvent>) -> Option<ButtonId> {
    match event {
        Some(ButtonEvent::Press(id)) => Some(id),
        Some(ButtonEvent::Release(id)) => Some(id),
        Some(ButtonEvent::LongPress(id)) => Some(id),
        Some(ButtonEvent::Repeat(id)) => Some(id),
        None => None,
    }
}

pub fn button_name(id: Option<ButtonId>) -> (r: Vec<u8>)
    ensures
        r@ == spec_button_name(id),
{
    let r = match id {
        Some(ButtonId::Up) => vec![0x56u8, 0x4Fu8, 0x4Cu8, 0x55u8, 0x50u8],
        Some(ButtonId::Down) => vec![0x56u8, 0x4Fu8, 0x4Cu8, 0x44u8, 0x4Fu8, 0x57u8, 0x4Eu8],
        Some(ButtonId::Left) => vec![0x4Cu8, 0x45u8, 0x46u8, 0x54u8],
        Some(ButtonId::Right) => vec![0x52u8, 0x49u8, 0x47u8, 0x48u8, 0x54u8],
        Some(ButtonId::Select) => vec![0x43u8, 0x4Fu8, 0x4Eu8, 0x46u8, 0x49u8, 0x52u8, 0x4Du8],
        Some(ButtonId::Back) => vec![0x42u8, 0x41u8, 0x43u8, 0x4Bu8],
        None => vec![0x2Du8],
    };
    assert(r@ =~= spec_button_name(id));
    r
}

pub fn event_name(event: Option<ButtonEvent>) -> (r: Vec<u8>)
    ensures
        r@ == spec_event_name(event),
{
    let r = match event {
        Some(ButtonEvent::Press(_)) => vec![0x50u8, 0x52u8, 0x45u8, 0x53u8, 0x53u8],
        Some(ButtonEvent::Release(_)) => vec![0x52u8, 0x45u8, 0x4Cu8, 0x45u8, 0x41u8, 0x53u8, 0x45u8],
        Some(ButtonEvent::LongPress(_)) => vec![0x4Cu8, 0x4Fu8, 0x4Eu8, 0x47u8],
        Some(ButtonEvent::Repeat(_)) => vec![0x52u8, 0x45u8, 0x50u8, 0x45u8, 0x41u8, 0x54u8],
        None => vec![0x2Du8],
    };
    assert(r@ =~= spec_event_name(event));
    r
}

pub fn event_button(event: Option<ButtonEvent>) -> (r: Option<ButtonId>)
    ensures
        r == spec_event_button(event),
{
    match event {
        Some(ButtonEvent::Press(id)) => Some(id),
        Some(ButtonEvent::Release(id)) => Some(id),
        Some(ButtonEvent::LongPress(id)) => Some(id),
        Some(ButtonEvent::Repeat(id)) => Some(id),
        None => None,
    }
}

// ── Boot screens ─────────────────────────────────────────────────────────────

/// Whether one of the first `n` progress bars covers `(lx, ly)`: bar `k` is 24
/// pixels tall at row `120 + 48k`, from column 24, `432 - 24k` wide.
pub open spec fn bars_cover(n: int, lx: int, ly: int) -> bool
    decreases n,
{
    if n <= 0 {
        false
    } else {
        bars_cover(n - 1, lx, ly) || in_box(24, 120 + 48 * (n - 1), 432 - 24 * (n - 1), 24, lx, ly)
    }
}

/// The boot placeholder: a screen-sized outline, a header block and `bars`
/// progress bars in black on white.
pub open spec fn boot_placeholder_white(bars: int, lx: int, ly: int) -> bool {
    !(on_outline(8, 8, 464, 784, lx, ly) || in_box(24, 24, 432, 64, lx, ly) || bars_cover(
        bars,
        lx,
        ly,
    ))
}

/// Draw the boot placeholder with `bars` progress bars (one per boot stage
/// reached before a failure).
pub fn render_boot_placeholder(buf: &mut FrameBuffer, bars: i32)
    requires
        0 <= bars,
        bars * 48 + 144 <= i32::MAX,
    ensures
        forall|lx: int, ly: int|
            on_screen(lx, ly) ==> #[trigger] frame_pixel(final(buf)@, lx, ly)
                == boot_placeholder_white(bars as int, lx, ly),
{
    display_clear_to(buf, 0xFF);
    proof {
        lemma_white_frame(buf@);
    }
    draw_rect_in(buf, 8, 8, 464, 784, 0x00);
    fill_rect_in(buf, 24, 24, 432, 64, 0x00);
    let mut idx: i32 = 0;
    while idx < bars
        invariant
            0 <= idx <= bars,
            bars * 48 + 144 <= i32::MAX,
            forall|lx: int, ly: int|
                on_screen(lx, ly) ==> #[trigger] frame_pixel(buf@, lx, ly) == boot_placeholder_white(
                    idx as int,
                    lx,
                    ly,
                ),
        decreases bars - idx,
    {
        fill_rect_in(buf, 24, 120 + idx * 48, 432 - idx * 24, 24, 0x00);
        idx += 1;
    }
}

pub open spec fn launcher_boot_title() -> Seq<u8> {
    seq![0x4Cu8, 0x41u8, 0x55u8, 0x4Eu8, 0x43u8, 0x48u8, 0x45u8, 0x52u8, 0x20u8, 0x42u8, 0x4Fu8, 0x4Fu8, 0x54u8]
}

pub open spec fn diag_title() -> Seq<u8> {
    seq![0x42u8, 0x55u8, 0x54u8, 0x54u8, 0x4Fu8, 0x4Eu8, 0x20u8, 0x44u8, 0x49u8, 0x41u8, 0x47u8]
}

/// The launcher's boot marker: a black header with the white title
/// `LAUNCHER BOOT`, an outline and three black bars.
pub open spec fn launcher_boot_marker_white(lx: int, ly: int) -> bool {
    text_covers(launcher_boot_title(), 32, 28, lx, ly) || !(in_box(0, 0, 480, 96, lx, ly)
        || on_outline(16, 136, 448, 528, lx, ly) || in_box(48, 208, 384, 56, lx, ly) || in_box(
        48,
        336,
        288,
        40,
        lx,
        ly,
    ) || in_box(48, 440, 224, 40, lx, ly))
}

pub fn render_launcher_boot_marker(buf: &mut FrameBuffer)
    ensures
        forall|lx: int, ly: int|
            on_screen(lx, ly) ==> #[trigger] frame_pixel(final(buf)@, lx, ly)
                == launcher_boot_marker_white(lx, ly),
{
    display_clear_to(buf, 0xFF);
    proof {
        lemma_white_frame(buf@);
    }
    fill_rect_in(buf, 0, 0, 480, 96, 0x00);
    draw_rect_in(buf, 16, 136, 448, 528, 0x00);
    fill_rect_in(buf, 48, 208, 384, 56, 0x00);
    fill_rect_in(buf, 48, 336, 288, 40, 0x00);
    fill_rect_in(buf, 48, 440, 224, 40, 0x00);
    let title = vec![0x4Cu8, 0x41u8, 0x55u8, 0x4Eu8, 0x43u8, 0x48u8, 0x45u8, 0x52u8, 0x20u8, 0x42u8, 0x4Fu8, 0x4Fu8, 0x54u8];
    assert(title@ =~= launcher_boot_title());
    draw_text(buf, 32, 28, title.as_slice(), 0xFF);
}

/// The diagnostics boot marker: black header and footer, the white title
/// `BUTTON DIAG`, an outline and three black bars.
pub open spec fn diag_boot_marker_white(lx: int, ly: int) -> bool {
    text_covers(diag_title(), 32, 28, lx, ly) || !(in_box(0, 0, 480, 96, lx, ly) || in_box(
        0,
        704,
        480,
        96,
        lx,
        ly,
    ) || on_outline(16, 120, 448, 560, lx, ly) || in_box(48, 176, 384, 48, lx, ly) || in_box(
        48,
        288,
        320,
        48,
        lx,
        ly,
    ) || in_box(48, 400, 256, 48, lx, ly))
}

pub fn render_diag_boot_marker(buf: &mut FrameBuffer)
    ensures
        forall|lx: int, ly: int|
            on_screen(lx, ly) ==> #[trigger] frame_pixel(final(buf)@, lx, ly) == diag_boot_marker_white(
                lx,
                ly,
            ),
{
    display_clear_to(buf, 0xFF);
    proof {
        lemma_white_frame(buf@);
    }
    fill_rect_in(buf, 0, 0, 480, 96, 0x00);
    fill_rect_in(buf, 0, 704, 480, 96, 0x00);
    draw_rect_in(buf, 16, 120, 448, 560, 0x00);
    fill_rect_in(buf, 48, 176, 384, 48, 0x00);
    fill_rect_in(buf, 48, 288, 320, 48, 0x00);
    fill_rect_in(buf, 48, 400, 256, 48, 0x00);
    let title = vec![0x42u8, 0x55u8, 0x54u8, 0x54u8, 0x4Fu8, 0x4Eu8, 0x20u8, 0x44u8, 0x49u8, 0x41u8, 0x47u8];
    assert(title@ =~= diag_title());
    draw_text(buf, 32, 28, title.as_slice(), 0xFF);
}

// ── Button diagnostics ───────────────────────────────────────────────────────

/// What the button diagnostics screen shows: both raw ADC samples, what each
/// ladder decodes to, the debounced button and the last event.
#[derive(Clone, Copy, Debug, Eq, PartialEq, Structural)]
pub struct ButtonDiagSnapshot {
    pub gpio1_mv: u16,
    pub gpio2_mv: u16,
    pub gpio1_decoded: Option<ButtonId>,
    pub gpio2_decoded: Option<ButtonId>,
    pub stable: Option<ButtonId>,
    pub last_event: Option<ButtonEvent>,
}

/// The decimal digits of `v`, most significant first, without leading zeros.
pub open spec fn spec_decimal(v: nat) -> Seq<u8>
    decreases v,
{
    if v < 10 {
        seq![(48 + v) as u8]
    } else {
        spec_decimal(v / 10).push((48 + v % 10) as u8)
    }
}

proof fn lemma_decimal_len(v: nat)
    ensures
        1 <= spec_decimal(v).len(),
        v < 10 ==> spec_decimal(v).len() == 1,
        v < 100 ==> spec_decimal(v).len() <= 2,
        v < 1000 ==> spec_decimal(v).len() <= 3,
        v < 10000 ==> spec_decimal(v).len() <= 4,
        v < 100000 ==> spec_decimal(v).len() <= 5,
    decreases v,
{
    if v >= 10 {
        lemma_decimal_len(v / 10);
    }
}

/// The decimal digits of `v`.
pub fn decimal(v: u16) -> (r: Vec<u8>)
    ensures
        r@ == spec_decimal(v as nat),
    decreases v,
{
    if v < 10 {
        let r = vec![48u8 + v as u8];
        assert(r@ =~= spec_decimal(v as nat));
        r
    } else {
        let mut r = decimal(v / 10);
        r.push(48u8 + (v % 10) as u8);
        r
    }
}

/// A diagnostics line: `prefix`, the value in decimal, then `suffix`, cut to
/// the 32 characters a line holds.
pub open spec fn diag_text(prefix: Seq<u8>, value: u16, suffix: Seq<u8>) -> Seq<u8> {
    let full = prefix + spec_decimal(value as nat) + suffix;
    if full.len() > 32 {
        full.take(32)
    } else {
        full
    }
}

/// Build a diagnostics line.
pub fn diag_line(prefix: &[u8], value: u16, suffix: &[u8]) -> (r: Vec<u8>)
    ensures
        r@ == diag_text(prefix@, value, suffix@),
        r@.len() <= 32,
{
    let digits = decimal(value);
    let ghost full = prefix@ + digits@ + suffix@;
    let mut line: Vec<u8> = Vec::new();
    let mut i: usize = 0;
    while i < prefix.len() && line.len() < 32
        invariant
            i <= prefix@.len(),
            line@.len() == i,
            i <= 32,
            full == prefix@ + digits@ + suffix@,
            forall|k: int| 0 <= k < i ==> #[trigger] line@[k] == full[k],
        decreases prefix@.len() - i,
    {
        line.push(prefix[i]);
        i += 1;
    }
    let mut j: usize = 0;
    while j < digits.len() && line.len() < 32
        invariant
            j <= digits@.len(),
            line@.len() <= 32,
            line@.len() < 32 ==> i == prefix@.len(),
            j > 0 ==> i == prefix@.len(),
            line@.len() == i + j,
            full == prefix@ + digits@ + suffix@,
            forall|k: int| 0 <= k < line@.len() ==> #[trigger] line@[k] == full[k],
        decreases digits@.len() - j,
    {
        line.push(digits[j]);
        j += 1;
    }
    let mut k: usize = 0;
    while k < suffix.len() && line.len() < 32
        invariant
            k <= suffix@.len(),
            line@.len() <= 32,
            line@.len() < 32 ==> i == prefix@.len() && j == digits@.len(),
            k > 0 ==> i == prefix@.len() && j == digits@.len(),
            line@.len() == i + j + k,
            full == prefix@ + digits@ + suffix@,
            forall|m: int| 0 <= m < line@.len() ==> #[trigger] line@[m] == full[m],
        decreases suffix@.len() - k,
    {
        line.push(suffix[k]);
        k += 1;
    }
    assert(line@ =~= diag_text(prefix@, value, suffix@));
    line
}

/// The black texts of the diagnostics screen, top to bottom: each line's row
/// and its text (all at column 16).
pub open spec fn diag_lines(s: ButtonDiagSnapshot) -> Seq<(int, Seq<u8>)> {
    seq![
        (96, diag_text(seq![0x47u8, 0x31u8, 0x20u8], s.gpio1_mv, seq![0x20u8])),
        (132, spec_button_name(s.gpio1_decoded)),
        (220, diag_text(seq![0x47u8, 0x32u8, 0x20u8], s.gpio2_mv, seq![0x20u8])),
        (256, spec_button_name(s.gpio2_decoded)),
        (372, seq![0x53u8, 0x54u8, 0x41u8, 0x42u8, 0x4Cu8, 0x45u8]),
        (408, spec_button_name(s.stable)),
        (524, seq![0x45u8, 0x56u8, 0x45u8, 0x4Eu8, 0x54u8]),
        (560, spec_event_name(s.last_event)),
        (596, spec_button_name(spec_event_button(s.last_event))),
        (704, seq![0x56u8, 0x4Fu8, 0x4Cu8, 0x55u8, 0x50u8, 0x20u8, 0x56u8, 0x4Fu8, 0x4Cu8, 0x44u8, 0x4Fu8, 0x57u8, 0x4Eu8]),
        (740, seq![0x43u8, 0x4Fu8, 0x4Eu8, 0x46u8, 0x49u8, 0x52u8, 0x4Du8, 0x20u8, 0x42u8, 0x41u8, 0x43u8, 0x4Bu8]),
    ]
}

/// Whether one of the first `n` black lines inks `(lx, ly)`.
pub open spec fn diag_lines_cover(lines: Seq<(int, Seq<u8>)>, n: int, lx: int, ly: int) -> bool
    decreases n,
{
    if n <= 0 {
        false
    } else {
        diag_lines_cover(lines, n - 1, lx, ly) || text_covers(lines[n - 1].1, 16, lines[n - 1].0, lx, ly)
    }
}

/// The diagnostics screen: an outline and a black header with the white title
/// `BUTTON DIAG`, then the lines of [`diag_lines`] in black.
pub open spec fn diag_white_upto(s: ButtonDiagSnapshot, n: int, lx: int, ly: int) -> bool {
    if diag_lines_cover(diag_lines(s), n, lx, ly) {
        false
    } else if text_covers(diag_title(), 16, 12, lx, ly) {
        true
    } else {
        !(on_outline(8, 8, 464, 784, lx, ly) || in_box(0, 0, 480, 64, lx, ly))
    }
}

pub open spec fn diag_white(s: ButtonDiagSnapshot, lx: int, ly: int) -> bool {
    diag_white_upto(s, 11, lx, ly)
}

/// Draw one black line of the diagnostics screen.
fn draw_diag_text(buf: &mut FrameBuffer, s: ButtonDiagSnapshot, n: usize, y: i32, text: &[u8])
    requires
        n < 11,
        diag_lines(s)[n as int] == (y as int, text@),
        text@.len() <= 32,
        0 <= y <= 800,
        forall|lx: int, ly: int|
            on_screen(lx, ly) ==> #[trigger] frame_pixel(old(buf)@, lx, ly) == diag_white_upto(
                s,
                n as int,
                lx,
                ly,
            ),
    ensures
        forall|lx: int, ly: int|
            on_screen(lx, ly) ==> #[trigger] frame_pixel(final(buf)@, lx, ly) == diag_white_upto(
                s,
                n + 1,
                lx,
                ly,
            ),
{
    draw_text(buf, 16, y, text, 0x00);
}

/// Draw the button diagnostics screen for `snap`.
pub fn render_button_diagnostics(buf: &mut FrameBuffer, snap: &ButtonDiagSnapshot)
    ensures
        forall|lx: int, ly: int|
            on_screen(lx, ly) ==> #[trigger] frame_pixel(final(buf)@, lx, ly) == diag_white(
                *snap,
                lx,
                ly,
            ),
{
    let s = *snap;
    proof {
        lemma_decimal_len(s.gpio1_mv as nat);
        lemma_decimal_len(s.gpio2_mv as nat);
    }
    display_clear_to(buf, 0xFF);
    proof {
        lemma_white_frame(buf@);
    }
    draw_rect_in(buf, 8, 8, 464, 784, 0x00);
    fill_rect_in(buf, 0, 0, 480, 64, 0x00);
    let title = vec![0x42u8, 0x55u8, 0x54u8, 0x54u8, 0x4Fu8, 0x4Eu8, 0x20u8, 0x44u8, 0x49u8, 0x41u8, 0x47u8];
    assert(title@ =~= diag_title());
    draw_text(buf, 16, 12, title.as_slice(), 0xFF);
    assert forall|lx: int, ly: int| on_screen(lx, ly) implies #[trigger] frame_pixel(buf@, lx, ly)
        == diag_white_upto(s, 0, lx, ly) by {}

    let g1 = vec![0x47u8, 0x31u8, 0x20u8];
    let sp = vec![0x20u8];
    let t = diag_line(g1.as_slice(), s.gpio1_mv, sp.as_slice());
    assert(g1@ =~= seq![0x47u8, 0x31u8, 0x20u8] && sp@ =~= seq![0x20u8]);
    draw_diag_text(buf, s, 0, 96, t.as_slice());
    let t = button_name(s.gpio1_decoded);
    draw_diag_text(buf, s, 1, 132, t.as_slice());
    let g2 = vec![0x47u8, 0x32u8, 0x20u8];
    let t = diag_line(g2.as_slice(), s.gpio2_mv, sp.as_slice());
    assert(g2@ =~= seq![0x47u8, 0x32u8, 0x20u8]);
    draw_diag_text(buf, s, 2, 220, t.as_slice());
    let t = button_name(s.gpio2_decoded);
    draw_diag_text(buf, s, 3, 256, t.as_slice());
    let t = vec![0x53u8, 0x54u8, 0x41u8, 0x42u8, 0x4Cu8, 0x45u8];
    assert(t@ =~= seq![0x53u8, 0x54u8, 0x41u8, 0x42u8, 0x4Cu8, 0x45u8]);
    draw_diag_text(buf, s, 4, 372, t.as_slice());
    let t = button_name(s.stable);
    draw_diag_text(buf, s, 5, 408, t.as_slice());
    let t = vec![0x45u8, 0x56u8, 0x45u8, 0x4Eu8, 0x54u8];
    assert(t@ =~= seq![0x45u8, 0x56u8, 0x45u8, 0x4Eu8, 0x54u8]);
    draw_diag_text(buf, s, 6, 524, t.as_slice());
    let t = event_name(s.last_event);
    draw_diag_text(buf, s, 7, 560, t.as_slice());
    let t = button_name(event_button(s.last_event));
    draw_diag_text(buf, s, 8, 596, t.as_slice());
    let t = vec![0x56u8, 0x4Fu8, 0x4Cu8, 0x55u8, 0x50u8, 0x20u8, 0x56u8, 0x4Fu8, 0x4Cu8, 0x44u8, 0x4Fu8, 0x57u8, 0x4Eu8];
    assert(t@ =~= seq![0x56u8, 0x4Fu8, 0x4Cu8, 0x55u8, 0x50u8, 0x20u8, 0x56u8, 0x4Fu8, 0x4Cu8, 0x44u8, 0x4Fu8, 0x57u8, 0x4Eu8]);
    draw_diag_text(buf, s, 9, 704, t.as_slice());
    let t = vec![0x43u8, 0x4Fu8, 0x4Eu8, 0x46u8, 0x49u8, 0x52u8, 0x4Du8, 0x20u8, 0x42u8, 0x41u8, 0x43u8, 0x4Bu8];
    assert(t@ =~= seq![0x43u8, 0x4Fu8, 0x4Eu8, 0x46u8, 0x49u8, 0x52u8, 0x4Du8, 0x20u8, 0x42u8, 0x41u8, 0x43u8, 0x4Bu8]);
    draw_diag_text(buf, s, 10, 740, t.as_slice());
}

} // verus!
