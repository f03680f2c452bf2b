use vstd::prelude::*;

use crate::display::transport::{
    issued, lemma_issued_one, lemma_issued_then, lemma_issued_widen, BusOp, DisplayTransport,
};

verus! {

/// Pixel width of the panel.
pub const PANEL_WIDTH: u16 = 800;
/// Pixel height of the panel.
pub const PANEL_HEIGHT: u16 = 480;
/// Bytes per display row (`PANEL_WIDTH / 8` — one bit per pixel).
pub const ROW_BYTES: usize = 100;
/// Maximum payload size in bytes for a single strip transfer (4 KB).
pub const STRIP_BUFFER_BYTES: usize = 4096;
/// Number of pixel rows that fit in one strip buffer (`STRIP_BUFFER_BYTES / ROW_BYTES`).
pub const STRIP_ROWS: usize = 40;
/// Number of strips required to cover the full panel height (ceiling division).
pub const STRIP_COUNT: usize = 12;

/// SSD1677 command: set gate driver output count and scan order.
pub const DRIVER_OUTPUT_CONTROL: u8 = 0x01;
/// SSD1677 command: configure booster soft-start phases.
pub const BOOSTER_SOFT_START: u8 = 0x0C;
/// SSD1677 command: enter deep-sleep mode.
pub const DEEP_SLEEP: u8 = 0x10;
/// SSD1677 command: set RAM data-entry mode (X/Y increment direction).
pub const DATA_ENTRY_MODE: u8 = 0x11;
/// SSD1677 command: software reset — returns registers to factory defaults.
pub const SOFT_RESET: u8 = 0x12;
/// SSD1677 command: select temperature sensor source.
pub const TEMP_SENSOR_CONTROL: u8 = 0x18;
/// SSD1677 command: write a temperature value directly.
pub const WRITE_TEMP: u8 = 0x1A;
/// SSD1677 command: activate display update sequence.
pub const MASTER_ACTIVATION: u8 = 0x20;
/// SSD1677 command: display update control register 1.
pub const DISPLAY_UPDATE_CTRL1: u8 = 0x21;
/// SSD1677 command: display update control register 2 (sequence flags).
pub const DISPLAY_UPDATE_CTRL2: u8 = 0x22;
/// SSD1677 command: stream pixel data into the black/white RAM.
pub const WRITE_RAM_BW: u8 = 0x24;
/// SSD1677 command: stream pixel data into the red RAM.
pub const WRITE_RAM_RED: u8 = 0x26;
/// SSD1677 command: set VCOM voltage.
pub const WRITE_VCOM: u8 = 0x2C;
/// SSD1677 command: upload a custom waveform LUT.
pub const WRITE_LUT: u8 = 0x32;
/// SSD1677 command: configure border waveform.
pub const BORDER_WAVEFORM: u8 = 0x3C;
/// SSD1677 command: set X RAM address window (pixel units, 4-byte little-endian payload).
pub const SET_RAM_X_RANGE: u8 = 0x44;
/// SSD1677 command: set Y RAM address window (row units, 4-byte little-endian payload).
pub const SET_RAM_Y_RANGE: u8 = 0x45;
/// SSD1677 command: auto-fill black/white RAM with a fixed value.
pub const AUTO_WRITE_BW_RAM: u8 = 0x46;
/// SSD1677 command: auto-fill red RAM with a fixed value.
pub const AUTO_WRITE_RED_RAM: u8 = 0x47;
/// SSD1677 command: set X RAM address counter (pixel units, 2-byte little-endian).
pub const SET_RAM_X_COUNTER: u8 = 0x4E;
/// SSD1677 command: set Y RAM address counter (row units, 2-byte little-endian).
pub const SET_RAM_Y_COUNTER: u8 = 0x4F;
/// `DISPLAY_UPDATE_CTRL2` flag byte that selects the full-panel waveform update sequence.
///
/// Bit field: 7=enable clock, 6=enable analog, 5=load temperature, 4=load LUT,
/// 3=display update, 2=disable analog, 1=disable clock, 0=reserved → `0b1111_0111`.
pub const FULL_UPDATE_SEQUENCE: u8 = 0xF7;
/// `DISPLAY_UPDATE_CTRL2` flag byte that selects the DU (Direct Update) partial-refresh sequence.
///
/// Same as [`FULL_UPDATE_SEQUENCE`] but with temperature and LUT reload (bits 5 and 4) cleared,
/// so the previously loaded waveform LUT is reused without reloading → `0b1100_0111`.
pub const PARTIAL_UPDATE_SEQUENCE: u8 = 0xC7;

// ── Bus sequences ────────────────────────────────────────────────────────────

/// Low byte of a 16-bit register value.
pub open spec fn lo(v: int) -> u8 {
    (v % 256) as u8
}

/// High byte of a 16-bit register value.
pub open spec fn hi(v: int) -> u8 {
    (v / 256) as u8
}

/// A command byte followed by its data bytes.
pub open spec fn cmd_with_data(cmd: u8, data: Seq<u8>) -> Seq<BusOp> {
    seq![BusOp::Command(cmd), BusOp::Data(data)]
}

/// Hardware reset, software reset, then a fixed 10 ms wait for the controller
/// to start up.
pub open spec fn reset_preamble_ops() -> Seq<BusOp> {
    seq![BusOp::Reset, BusOp::Command(SOFT_RESET), BusOp::Delay(10)]
}

/// Booster, border, VCOM and temperature-sensor configuration.
pub open spec fn power_init_ops() -> Seq<BusOp> {
    cmd_with_data(BOOSTER_SOFT_START, seq![0xAEu8, 0xC7u8, 0xC3u8, 0xC0u8, 0x80u8])
        + cmd_with_data(BORDER_WAVEFORM, seq![0x01u8]) + cmd_with_data(WRITE_VCOM, seq![0x3Cu8])
        + cmd_with_data(TEMP_SENSOR_CONTROL, seq![0x80u8])
}

/// Gate count, data-entry mode, and the full X and Y RAM windows.
pub open spec fn addressing_init_ops() -> Seq<BusOp> {
    cmd_with_data(DRIVER_OUTPUT_CONTROL, seq![lo(479), hi(479), 0x02u8]) + cmd_with_data(
        DATA_ENTRY_MODE,
        seq![0x01u8],
    ) + cmd_with_data(SET_RAM_X_RANGE, seq![0x00u8, 0x00u8, lo(799), hi(799)]) + cmd_with_data(
        SET_RAM_Y_RANGE,
        seq![lo(479), hi(479), 0x00u8, 0x00u8],
    )
}

/// The window for pixel columns `[x, x + width)` and image rows `[y, y + height)`,
/// with the Y axis flipped onto the panel's gates, and both address counters reset.
pub open spec fn window_ops(x: int, y: int, width: int, height: int) -> Seq<BusOp> {
    let x_end = x + width - 1;
    let y_flipped = PANEL_HEIGHT - y - height;
    let y_top = y_flipped + height - 1;
    cmd_with_data(DATA_ENTRY_MODE, seq![0x01u8]) + cmd_with_data(
        SET_RAM_X_RANGE,
        seq![lo(x), hi(x), lo(x_end), hi(x_end)],
    ) + cmd_with_data(SET_RAM_Y_RANGE, seq![lo(y_top), hi(y_top), lo(y_flipped), hi(y_flipped)])
        + cmd_with_data(SET_RAM_X_COUNTER, seq![lo(x), hi(x)]) + cmd_with_data(
        SET_RAM_Y_COUNTER,
        seq![lo(y_top), hi(y_top)],
    )
}

/// The strip window for image rows `[row_start, row_start + row_count)`: the Y
/// RAM range from the first row to the last (row N is gate N), the Y cursor at
/// the first row, and the X cursor at column 0.
pub open spec fn strip_window_ops(row_start: int, row_count: int) -> Seq<BusOp> {
    let last = row_start + row_count - 1;
    cmd_with_data(SET_RAM_Y_RANGE, seq![lo(row_start), hi(row_start), lo(last), hi(last)])
        + cmd_with_data(SET_RAM_Y_COUNTER, seq![lo(row_start), hi(row_start)]) + cmd_with_data(
        SET_RAM_X_COUNTER,
        seq![0x00u8, 0x00u8],
    )
}

/// What `emit_window_and_cursor` asks of its arguments.
pub open spec fn window_args_ok(x: int, y: int, width: int, height: int) -> bool {
    &&& width > 0
    &&& height > 0
    &&& x % 8 == 0
    &&& width % 8 == 0
    &&& x + width <= u16::MAX
    &&& y + height <= PANEL_HEIGHT
}

/// The start-up sequences byte for byte: the reset preamble; the booster
/// soft-start (`AE C7 C3 C0 80`), border, VCOM and temperature-sensor
/// settings; and the addressing block, which drives all 480 gates, enters
/// data X-increment / Y-decrement, and opens the RAM window on columns 0..=799
/// (`00 00 1F 03`) and gates 479 down to 0 (`DF 01 00 00`), each 16-bit value
/// low byte first.
pub proof fn law_start_up_bytes()
    ensures
        reset_preamble_ops() == seq![BusOp::Reset, BusOp::Command(0x12), BusOp::Delay(10)],
        power_init_ops() == seq![
            BusOp::Command(0x0C),
            BusOp::Data(seq![0xAEu8, 0xC7, 0xC3, 0xC0, 0x80]),
            BusOp::Command(0x3C),
            BusOp::Data(seq![0x01u8]),
            BusOp::Command(0x2C),
            BusOp::Data(seq![0x3Cu8]),
            BusOp::Command(0x18),
            BusOp::Data(seq![0x80u8]),
        ],
        addressing_init_ops() == seq![
            BusOp::Command(0x01),
            BusOp::Data(seq![0xDFu8, 0x01, 0x02]),
            BusOp::Command(0x11),
            BusOp::Data(seq![0x01u8]),
            BusOp::Command(0x44),
            BusOp::Data(seq![0x00u8, 0x00, 0x1F, 0x03]),
            BusOp::Command(0x45),
            BusOp::Data(seq![0xDFu8, 0x01, 0x00, 0x00]),
        ],
{
    assert(lo(479) == 0xDF && hi(479) == 0x01 && lo(799) == 0x1F && hi(799) == 0x03);
    assert(power_init_ops() =~= seq![
        BusOp::Command(0x0C),
        BusOp::Data(seq![0xAEu8, 0xC7, 0xC3, 0xC0, 0x80]),
        BusOp::Command(0x3C),
        BusOp::Data(seq![0x01u8]),
        BusOp::Command(0x2C),
        BusOp::Data(seq![0x3Cu8]),
        BusOp::Command(0x18),
        BusOp::Data(seq![0x80u8]),
    ]);
    assert(addressing_init_ops() =~= seq![
        BusOp::Command(0x01),
        BusOp::Data(seq![0xDFu8, 0x01, 0x02]),
        BusOp::Command(0x11),
        BusOp::Data(seq![0x01u8]),
        BusOp::Command(0x44),
        BusOp::Data(seq![0x00u8, 0x00, 0x1F, 0x03]),
        BusOp::Command(0x45),
        BusOp::Data(seq![0xDFu8, 0x01, 0x00, 0x00]),
    ]);
}

// ── Executable code ──────────────────────────────────────────────────────────

/// Assert hardware reset, issue a software reset, and wait 10 ms for the
/// controller to complete its internal startup sequence.
///
/// The SSD1677 BUSY pin goes HIGH immediately after the hardware reset pulse
/// (the controller is initialising), so polling BUSY here would time-out:
/// hardware reset → SW_RESET command (0x12) → fixed 10 ms delay.
pub fn emit_reset_preamble<T>(transport: &mut T) -> (r: Result<(), T::Error>) where
    T: DisplayTransport,

    ensures
        issued(*old(transport), *final(transport), reset_preamble_ops(), r is Ok),
{
    let ghost t0 = *transport;
    let r = transport.reset();
    proof {
        lemma_issued_one(t0, *transport, BusOp::Reset, r is Ok);
    }
    if r.is_err() {
        proof {
            lemma_issued_widen(t0, *transport, seq![BusOp::Reset], reset_preamble_ops());
        }
        return r;
    }
    let ghost t1 = *transport;
    let r = transport.write_command(SOFT_RESET);
    proof {
        lemma_issued_one(t1, *transport, BusOp::Command(SOFT_RESET), r is Ok);
        lemma_issued_then(
            t0,
            t1,
            *transport,
            seq![BusOp::Reset],
            seq![BusOp::Command(SOFT_RESET)],
            r is Ok,
        );
    }
    let ghost done = seq![BusOp::Reset] + seq![BusOp::Command(SOFT_RESET)];
    if r.is_err() {
        proof {
            lemma_issued_widen(t0, *transport, done, reset_preamble_ops());
        }
        return r;
    }
    let ghost t2 = *transport;
    transport.delay_ms(10);
    proof {
        lemma_issued_one(t2, *transport, BusOp::Delay(10), true);
        lemma_issued_then(t0, t2, *transport, done, seq![BusOp::Delay(10)], true);
        assert(done + seq![BusOp::Delay(10)] =~= reset_preamble_ops());
    }
    Ok(())
}

/// Write the booster, border, VCOM, and temperature-sensor configuration registers.
pub fn emit_power_init_block<T>(transport: &mut T) -> (r: Result<(), T::Error>) where
    T: DisplayTransport,

    ensures
        issued(*old(transport), *final(transport), power_init_ops(), r is Ok),
{
    let ghost t0 = *transport;
    let ghost mut done: Seq<BusOp> = Seq::empty();
    assert(issued(t0, *transport, done, true));
    let booster: [u8; 5] = [0xAE, 0xC7, 0xC3, 0xC0, 0x80];
    assert(booster@ =~= seq![0xAEu8, 0xC7u8, 0xC3u8, 0xC0u8, 0x80u8]);
    let ghost tp = *transport;
    let r = write_command_with_data(transport, BOOSTER_SOFT_START, &booster);
    proof {
        lemma_issued_then(t0, tp, *transport, done, cmd_with_data(BOOSTER_SOFT_START, booster@), r is Ok);
    }
    if r.is_err() {
        proof {
            lemma_issued_widen(t0, *transport, done + cmd_with_data(BOOSTER_SOFT_START, booster@), power_init_ops());
        }
        return r;
    }
    proof {
        done = done + cmd_with_data(BOOSTER_SOFT_START, booster@);
    }
    let border: [u8; 1] = [0x01];
    assert(border@ =~= seq![0x01u8]);
    let ghost tp = *transport;
    let r = write_command_with_data(transport, BORDER_WAVEFORM, &border);
    proof {
        lemma_issued_then(t0, tp, *transport, done, cmd_with_data(BORDER_WAVEFORM, border@), r is Ok);
    }
    if r.is_err() {
        proof {
            lemma_issued_widen(t0, *transport, done + cmd_with_data(BORDER_WAVEFORM, border@), power_init_ops());
        }
        return r;
    }
    proof {
        done = done + cmd_with_data(BORDER_WAVEFORM, border@);
    }
    let vcom: [u8; 1] = [0x3C];
    assert(vcom@ =~= seq![0x3Cu8]);
    let ghost tp = *transport;
    let r = write_command_with_data(transport, WRITE_VCOM, &vcom);
    proof {
        lemma_issued_then(t0, tp, *transport, done, cmd_with_data(WRITE_VCOM, vcom@), r is Ok);
    }
    if r.is_err() {
        proof {
            lemma_issued_widen(t0, *transport, done + cmd_with_data(WRITE_VCOM, vcom@), power_init_ops());
        }
        return r;
    }
    proof {
        done = done + cmd_with_data(WRITE_VCOM, vcom@);
    }
    let temp: [u8; 1] = [0x80];
    assert(temp@ =~= seq![0x80u8]);
    let ghost tp = *transport;
    let r = write_command_with_data(transport, TEMP_SENSOR_CONTROL, &temp);
    proof {
        lemma_issued_then(t0, tp, *transport, done, cmd_with_data(TEMP_SENSOR_CONTROL, temp@), r is Ok);
    }
    if r.is_err() {
        proof {
            lemma_issued_widen(t0, *transport, done + cmd_with_data(TEMP_SENSOR_CONTROL, temp@), power_init_ops());
        }
        return r;
    }
    proof {
        done = done + cmd_with_data(TEMP_SENSOR_CONTROL, temp@);
    }
    assert(done =~= power_init_ops());
    Ok(())
}

/// Write gate-driver, data-entry-mode, and RAM address-window registers.
///
/// Sets the X window as pixel addresses `[0, PANEL_WIDTH-1]` and the Y window
/// as row addresses `[PANEL_HEIGHT-1, 0]` in little-endian 16-bit format.
pub fn emit_addressing_init_block<T>(transport: &mut T) -> (r: Result<(), T::Error>) where
    T: DisplayTransport,

    ensures
        issued(*old(transport), *final(transport), addressing_init_ops(), r is Ok),
{
    let ghost t0 = *transport;
    let ghost mut done: Seq<BusOp> = Seq::empty();
    assert(issued(t0, *transport, done, true));
    let last_gate = PANEL_HEIGHT - 1;
    let last_col = PANEL_WIDTH - 1;
    let driver: [u8; 3] = [(last_gate % 256) as u8, (last_gate / 256) as u8, 0x02];
    assert(driver@ =~= seq![lo(479), hi(479), 0x02u8]);
    let ghost tp = *transport;
    let r = write_command_with_data(transport, DRIVER_OUTPUT_CONTROL, &driver);
    proof {
        lemma_issued_then(t0, tp, *transport, done, cmd_with_data(DRIVER_OUTPUT_CONTROL, driver@), r is Ok);
    }
    if r.is_err() {
        proof {
            lemma_issued_widen(t0, *transport, done + cmd_with_data(DRIVER_OUTPUT_CONTROL, driver@), addressing_init_ops());
        }
        return r;
    }
    proof {
        done = done + cmd_with_data(DRIVER_OUTPUT_CONTROL, driver@);
    }
    // DATA_ENTRY_MODE 0x01: Y-decrement, X-increment. Gate 0 is at the physical
    // bottom, so with Y-decrement logical row 0 maps to the top of the screen.
    let entry: [u8; 1] = [0x01];
    assert(entry@ =~= seq![0x01u8]);
    let ghost tp = *transport;
    let r = write_command_with_data(transport, DATA_ENTRY_MODE, &entry);
    proof {
        lemma_issued_then(t0, tp, *transport, done, cmd_with_data(DATA_ENTRY_MODE, entry@), r is Ok);
    }
    if r.is_err() {
        proof {
            lemma_issued_widen(t0, *transport, done + cmd_with_data(DATA_ENTRY_MODE, entry@), addressing_init_ops());
        }
        return r;
    }
    proof {
        done = done + cmd_with_data(DATA_ENTRY_MODE, entry@);
    }
    // X range: pixel addresses 0x0000 to 0x031F (0–799) covering all 800 pixels.
    let x_range: [u8; 4] = [0x00, 0x00, (last_col % 256) as u8, (last_col / 256) as u8];
    assert(x_range@ =~= seq![0x00u8, 0x00u8, lo(799), hi(799)]);
    let ghost tp = *transport;
    let r = write_command_with_data(transport, SET_RAM_X_RANGE, &x_range);
    proof {
        lemma_issued_then(t0, tp, *transport, done, cmd_with_data(SET_RAM_X_RANGE, x_range@), r is Ok);
    }
    if r.is_err() {
        proof {
            lemma_issued_widen(t0, *transport, done + cmd_with_data(SET_RAM_X_RANGE, x_range@), addressing_init_ops());
        }
        return r;
    }
    proof {
        done = done + cmd_with_data(SET_RAM_X_RANGE, x_range@);
    }
    // Y range: gate PANEL_HEIGHT-1 (top) down to gate 0 (bottom).
    let y_range: [u8; 4] = [(last_gate % 256) as u8, (last_gate / 256) as u8, 0x00, 0x00];
    assert(y_range@ =~= seq![lo(479), hi(479), 0x00u8, 0x00u8]);
    let ghost tp = *transport;
    let r = write_command_with_data(transport, SET_RAM_Y_RANGE, &y_range);
    proof {
        lemma_issued_then(t0, tp, *transport, done, cmd_with_data(SET_RAM_Y_RANGE, y_range@), r is Ok);
    }
    if r.is_err() {
        proof {
            lemma_issued_widen(t0, *transport, done + cmd_with_data(SET_RAM_Y_RANGE, y_range@), addressing_init_ops());
        }
        return r;
    }
    proof {
        done = done + cmd_with_data(SET_RAM_Y_RANGE, y_range@);
    }
    assert(done =~= addressing_init_ops());
    Ok(())
}

/// Program a byte-aligned RAM window and reset the SSD1677 address counters.
pub fn emit_window_and_cursor<T>(transport: &mut T, x: u16, y: u16, width: u16, height: u16) -> (r:
    Result<(), T::Error>) where T: DisplayTransport
    requires
        window_args_ok(x as int, y as int, width as int, height as int),
    ensures
        issued(
            *old(transport),
            *final(transport),
            window_ops(x as int, y as int, width as int, height as int),
            r is Ok,
        ),
{
    let ghost t0 = *transport;
    let ghost mut done: Seq<BusOp> = Seq::empty();
    assert(issued(t0, *transport, done, true));
    let x_end = x + width - 1;
    let y_flipped = PANEL_HEIGHT - y - height;
    let y_top = y_flipped + height - 1;

    let entry: [u8; 1] = [0x01];
    assert(entry@ =~= seq![0x01u8]);
    let ghost tp = *transport;
    let r = write_command_with_data(transport, DATA_ENTRY_MODE, &entry);
    proof {
        lemma_issued_then(t0, tp, *transport, done, cmd_with_data(DATA_ENTRY_MODE, entry@), r is Ok);
    }
    if r.is_err() {
        proof {
            lemma_issued_widen(t0, *transport, done + cmd_with_data(DATA_ENTRY_MODE, entry@), window_ops(x as int, y as int, width as int, height as int));
        }
        return r;
    }
    proof {
        done = done + cmd_with_data(DATA_ENTRY_MODE, entry@);
    }
    let x_range: [u8; 4] = [
        (x % 256) as u8,
        (x / 256) as u8,
        (x_end % 256) as u8,
        (x_end / 256) as u8,
    ];
    assert(x_range@ =~= seq![lo(x as int), hi(x as int), lo(x_end as int), hi(x_end as int)]);
    let ghost tp = *transport;
    let r = write_command_with_data(transport, SET_RAM_X_RANGE, &x_range);
    proof {
        lemma_issued_then(t0, tp, *transport, done, cmd_with_data(SET_RAM_X_RANGE, x_range@), r is Ok);
    }
    if r.is_err() {
        proof {
            lemma_issued_widen(t0, *transport, done + cmd_with_data(SET_RAM_X_RANGE, x_range@), window_ops(x as int, y as int, width as int, height as int));
        }
        return r;
    }
    proof {
        done = done + cmd_with_data(SET_RAM_X_RANGE, x_range@);
    }
    let y_range: [u8; 4] = [
        (y_top % 256) as u8,
        (y_top / 256) as u8,
        (y_flipped % 256) as u8,
        (y_flipped / 256) as u8,
    ];
    assert(y_range@ =~= seq![
        lo(y_top as int),
        hi(y_top as int),
        lo(y_flipped as int),
        hi(y_flipped as int),
    ]);
    let ghost tp = *transport;
    let r = write_command_with_data(transport, SET_RAM_Y_RANGE, &y_range);
    proof {
        lemma_issued_then(t0, tp, *transport, done, cmd_with_data(SET_RAM_Y_RANGE, y_range@), r is Ok);
    }
    if r.is_err() {
        proof {
            lemma_issued_widen(t0, *transport, done + cmd_with_data(SET_RAM_Y_RANGE, y_range@), window_ops(x as int, y as int, width as int, height as int));
        }
        return r;
    }
    proof {
        done = done + cmd_with_data(SET_RAM_Y_RANGE, y_range@);
    }
    let x_counter: [u8; 2] = [(x % 256) as u8, (x / 256) as u8];
    assert(x_counter@ =~= seq![lo(x as int), hi(x as int)]);
    let ghost tp = *transport;
    let r = write_command_with_data(transport, SET_RAM_X_COUNTER, &x_counter);
    proof {
        lemma_issued_then(t0, tp, *transport, done, cmd_with_data(SET_RAM_X_COUNTER, x_counter@), r is Ok);
    }
    if r.is_err() {
        proof {
            lemma_issued_widen(t0, *transport, done + cmd_with_data(SET_RAM_X_COUNTER, x_counter@), window_ops(x as int, y as int, width as int, height as int));
        }
        return r;
    }
    proof {
        done = done + cmd_with_data(SET_RAM_X_COUNTER, x_counter@);
    }
    let y_counter: [u8; 2] = [(y_top % 256) as u8, (y_top / 256) as u8];
    assert(y_counter@ =~= seq![lo(y_top as int), hi(y_top as int)]);
    let ghost tp = *transport;
    let r = write_command_with_data(transport, SET_RAM_Y_COUNTER, &y_counter);
    proof {
        lemma_issued_then(t0, tp, *transport, done, cmd_with_data(SET_RAM_Y_COUNTER, y_counter@), r is Ok);
    }
    if r.is_err() {
        proof {
            lemma_issued_widen(t0, *transport, done + cmd_with_data(SET_RAM_Y_COUNTER, y_counter@), window_ops(x as int, y as int, width as int, height as int));
        }
        return r;
    }
    proof {
        done = done + cmd_with_data(SET_RAM_Y_COUNTER, y_counter@);
    }
    assert(done =~= window_ops(x as int, y as int, width as int, height as int));
    Ok(())
}

/// Program the full-panel RAM window and reset the address counters.
pub fn emit_full_window_and_cursor<T>(transport: &mut T) -> (r: Result<(), T::Error>) where
    T: DisplayTransport,

    ensures
        issued(
            *old(transport),
            *final(transport),
            window_ops(0, 0, PANEL_WIDTH as int, PANEL_HEIGHT as int),
            r is Ok,
        ),
{
    emit_window_and_cursor(transport, 0, 0, PANEL_WIDTH, PANEL_HEIGHT)
}

/// Set the Y RAM window, set the Y address cursor to `row_start`, and reset
/// the X cursor.
///
/// `row_start` is the first row of the strip (0 = top of the image / top of
/// screen) and `row_count` the number of rows. Logical row N maps directly to
/// gate N, so no coordinate transformation is needed. Issues `SET_RAM_Y_RANGE`,
/// `SET_RAM_Y_COUNTER` and `SET_RAM_X_COUNTER` in that order, leaving the
/// controller ready to accept strip pixel data.
pub fn emit_strip_window_and_cursor<T>(transport: &mut T, row_start: u16, row_count: u16) -> (r:
    Result<(), T::Error>) where T: DisplayTransport
    requires
        row_count > 0,
        row_start + row_count <= PANEL_HEIGHT,
    ensures
        issued(*old(transport), *final(transport), strip_window_ops(row_start as int, row_count as int), r is Ok),
{
    let ghost t0 = *transport;
    let ghost mut done: Seq<BusOp> = Seq::empty();
    assert(issued(t0, *transport, done, true));
    let last = row_start + row_count - 1;
    let y_range: [u8; 4] = [
        (row_start % 256) as u8,
        (row_start / 256) as u8,
        (last % 256) as u8,
        (last / 256) as u8,
    ];
    assert(y_range@ =~= seq![
        lo(row_start as int),
        hi(row_start as int),
        lo(last as int),
        hi(last as int),
    ]);
    let ghost tp = *transport;
    let r = write_command_with_data(transport, SET_RAM_Y_RANGE, &y_range);
    proof {
        lemma_issued_then(t0, tp, *transport, done, cmd_with_data(SET_RAM_Y_RANGE, y_range@), r is Ok);
    }
    if r.is_err() {
        proof {
            lemma_issued_widen(t0, *transport, done + cmd_with_data(SET_RAM_Y_RANGE, y_range@), strip_window_ops(row_start as int, row_count as int));
        }
        return r;
    }
    proof {
        done = done + cmd_with_data(SET_RAM_Y_RANGE, y_range@);
    }
    let y_counter: [u8; 2] = [(row_start % 256) as u8, (row_start / 256) as u8];
    assert(y_counter@ =~= seq![lo(row_start as int), hi(row_start as int)]);
    let ghost tp = *transport;
    let r = write_command_with_data(transport, SET_RAM_Y_COUNTER, &y_counter);
    proof {
        lemma_issued_then(t0, tp, *transport, done, cmd_with_data(SET_RAM_Y_COUNTER, y_counter@), r is Ok);
    }
    if r.is_err() {
        proof {
            lemma_issued_widen(t0, *transport, done + cmd_with_data(SET_RAM_Y_COUNTER, y_counter@), strip_window_ops(row_start as int, row_count as int));
        }
        return r;
    }
    proof {
        done = done + cmd_with_data(SET_RAM_Y_COUNTER, y_counter@);
    }
    let x_counter: [u8; 2] = [0x00, 0x00];
    assert(x_counter@ =~= seq![0x00u8, 0x00u8]);
    let ghost tp = *transport;
    let r = write_command_with_data(transport, SET_RAM_X_COUNTER, &x_counter);
    proof {
        lemma_issued_then(t0, tp, *transport, done, cmd_with_data(SET_RAM_X_COUNTER, x_counter@), r is Ok);
    }
    if r.is_err() {
        proof {
            lemma_issued_widen(t0, *transport, done + cmd_with_data(SET_RAM_X_COUNTER, x_counter@), strip_window_ops(row_start as int, row_count as int));
        }
        return r;
    }
    proof {
        done = done + cmd_with_data(SET_RAM_X_COUNTER, x_counter@);
    }
    assert(done =~= strip_window_ops(row_start as int, row_count as int));
    Ok(())
}

/// Send one command byte and then its data bytes.
pub fn write_command_with_data<T>(transport: &mut T, command: u8, data: &[u8]) -> (r: Result<
    (),
    T::Error,
>) where T: DisplayTransport
    ensures
        issued(*old(transport), *final(transport), cmd_with_data(command, data@), r is Ok),
{
    let ghost t0 = *transport;
    let r = transport.write_command(command);
    proof {
        lemma_issued_one(t0, *transport, BusOp::Command(command), r is Ok);
    }
    if r.is_err() {
        proof {
            lemma_issued_widen(
                t0,
                *transport,
                seq![BusOp::Command(command)],
                cmd_with_data(command, data@),
            );
        }
        return r;
    }
    let ghost t1 = *transport;
    let r = transport.write_data(data);
    proof {
        lemma_issued_one(t1, *transport, BusOp::Data(data@), r is Ok);
        lemma_issued_then(
            t0,
            t1,
            *transport,
            seq![BusOp::Command(command)],
            seq![BusOp::Data(data@)],
            r is Ok,
        );
        assert(seq![BusOp::Command(command)] + seq![BusOp::Data(data@)] =~= cmd_with_data(
            command,
            data@,
        ));
    }
    r
}

} // verus!
