use vstd::prelude::*;
use vstd::slice::slice_subrange;

use crate::display::render::strip_geometry;
use crate::display::ssd1677::{
    emit_strip_window_and_cursor, strip_window_ops, PANEL_HEIGHT, ROW_BYTES, WRITE_RAM_BW,
};
use crate::display::transport::{
    issued, lemma_issued_one, lemma_issued_then, lemma_issued_widen, lemma_prefix_append,
    lemma_prefix_trans, BusOp, DisplayTransport,
};

verus! {

/// The strip window, the black/white RAM command, then the packed rows.
pub open spec fn strip_write_ops(row_start: int, row_count: int, packed: Seq<u8>) -> Seq<BusOp> {
    strip_window_ops(row_start, row_count) + seq![
        BusOp::Command(WRITE_RAM_BW),
        BusOp::Data(packed),
    ]
}

/// The first `n` of the twelve 40-row strips, each filled with `fill`.
pub open spec fn clear_screen_ops(fill: u8, n: int) -> Seq<BusOp>
    decreases n,
{
    if n <= 0 {
        Seq::empty()
    } else {
        clear_screen_ops(fill, n - 1) + strip_write_ops(
            (n - 1) * 40,
            40,
            Seq::new(4000, |i: int| fill),
        )
    }
}

/// Write one pre-packed strip through the transport.
///
/// `row_start`   — first row of the strip (0-based).
/// `row_count`   — number of rows in the strip.
/// `packed_rows` — 1-bit-per-pixel data produced by [`crate::display::render::pack_strip`];
///                 `row_count * ROW_BYTES` bytes.
///
/// Issues the Y window, Y cursor, and X cursor commands via
/// [`emit_strip_window_and_cursor`], then streams `packed_rows` into BW RAM.
pub fn write_strip<T>(transport: &mut T, row_start: u16, row_count: u16, packed_rows: &[u8]) -> (r:
    Result<(), T::Error>) where T: DisplayTransport
    requires
        row_count > 0,
        row_start + row_count <= PANEL_HEIGHT,
    ensures
        issued(
            *old(transport),
            *final(transport),
            strip_write_ops(row_start as int, row_count as int, packed_rows@),
            r is Ok,
        ),
{
    let ghost t0 = *transport;
    let r = emit_strip_window_and_cursor(transport, row_start, row_count);
    let ghost done = strip_window_ops(row_start as int, row_count as int);
    if r.is_err() {
        proof {
            lemma_issued_widen(t0, *transport, done, strip_write_ops(row_start as int, row_count as int, packed_rows@));
        }
        return r;
    }
    let ghost tp = *transport;
    let r = transport.write_command(WRITE_RAM_BW);
    proof {
        lemma_issued_one(tp, *transport, BusOp::Command(WRITE_RAM_BW), r is Ok);
        lemma_issued_then(t0, tp, *transport, done, seq![BusOp::Command(WRITE_RAM_BW)], r is Ok);
    }
    if r.is_err() {
        proof {
            lemma_issued_widen(t0, *transport, done + seq![BusOp::Command(WRITE_RAM_BW)], strip_write_ops(row_start as int, row_count as int, packed_rows@));
        }
        return r;
    }
    proof {
        done = done + seq![BusOp::Command(WRITE_RAM_BW)];
    }
    let ghost tp = *transport;
    let r = transport.write_data(packed_rows);
    proof {
        lemma_issued_one(tp, *transport, BusOp::Data(packed_rows@), r is Ok);
        lemma_issued_then(t0, tp, *transport, done, seq![BusOp::Data(packed_rows@)], r is Ok);
    }
    if r.is_err() {
        proof {
            lemma_issued_widen(t0, *transport, done + seq![BusOp::Data(packed_rows@)], strip_write_ops(row_start as int, row_count as int, packed_rows@));
        }
        return r;
    }
    proof {
        done = done + seq![BusOp::Data(packed_rows@)];
    }
    assert(done =~= strip_write_ops(row_start as int, row_count as int, packed_rows@));
    Ok(())
}

/// Each run of strips begins every longer run.
proof fn lemma_clear_screen_prefix(fill: u8, i: int, j: int)
    requires
        0 <= i <= j,
    ensures
        clear_screen_ops(fill, i).is_prefix_of(clear_screen_ops(fill, j)),
    decreases j - i,
{
    if i < j {
        lemma_clear_screen_prefix(fill, i, j - 1);
        lemma_prefix_append(
            clear_screen_ops(fill, j - 1),
            strip_write_ops((j - 1) * 40, 40, Seq::new(4000, |k: int| fill)),
        );
        lemma_prefix_trans(clear_screen_ops(fill, i), clear_screen_ops(fill, j - 1), clear_screen_ops(fill, j));
    } else {
        lemma_prefix_append(clear_screen_ops(fill, i), Seq::empty());
        assert(clear_screen_ops(fill, i) + Seq::empty() =~= clear_screen_ops(fill, i));
    }
}

/// Fill the entire display with a constant byte value by writing all strips in order.
///
/// `fill`      — byte value to broadcast: `0xFF` = white, `0x00` = black.
/// `strip_buf` — caller-supplied scratch buffer of at least one strip (4000 bytes).
pub fn clear_screen<T>(transport: &mut T, fill: u8, strip_buf: &mut [u8]) -> (r: Result<
    (),
    T::Error,
>) where T: DisplayTransport
    requires
        old(strip_buf)@.len() >= 4000,
    ensures
        final(strip_buf)@.len() == old(strip_buf)@.len(),
        forall|k: int| 0 <= k < 4000 ==> #[trigger] final(strip_buf)@[k] == fill,
        forall|k: int| 4000 <= k < old(strip_buf)@.len() ==> #[trigger] final(strip_buf)@[k] == old(
            strip_buf,
        )@[k],
        issued(*old(transport), *final(transport), clear_screen_ops(fill, 12), r is Ok),
{
    let ghost t0 = *transport;
    let geo = strip_geometry(PANEL_HEIGHT as usize);
    let mut strip_idx: usize = 0;
    while strip_idx < geo.strip_count
        invariant
            geo.strip_count == 12,
            geo.rows_per_strip == 40,
            geo.last_strip_rows == 40,
            strip_idx <= 12,
            old(strip_buf)@.len() >= 4000,
            strip_buf@.len() == old(strip_buf)@.len(),
            strip_idx > 0 ==> forall|k: int| 0 <= k < 4000 ==> #[trigger] strip_buf@[k] == fill,
            forall|k: int| 4000 <= k < old(strip_buf)@.len() ==> #[trigger] strip_buf@[k] == old(
                strip_buf,
            )@[k],
            t0 == *old(transport),
            issued(t0, *transport, clear_screen_ops(fill, strip_idx as int), true),
        decreases 12 - strip_idx,
    {
        let row_start = (strip_idx * geo.rows_per_strip) as u16;
        let row_count = if strip_idx + 1 == geo.strip_count {
            geo.last_strip_rows
        } else {
            geo.rows_per_strip
        };
        let byte_count = row_count * ROW_BYTES;
        let mut i: usize = 0;
        while i < byte_count
            invariant
                i <= byte_count == 4000,
                old(strip_buf)@.len() >= 4000,
                strip_buf@.len() == old(strip_buf)@.len(),
                forall|k: int| 0 <= k < i ==> #[trigger] strip_buf@[k] == fill,
                forall|k: int| 4000 <= k < old(strip_buf)@.len() ==> #[trigger] strip_buf@[k] == old(
                    strip_buf,
                )@[k],
            decreases byte_count - i,
        {
            strip_buf[i] = fill;
            i += 1;
        }
        let buf = slice_subrange(strip_buf, 0, byte_count);
        assert(buf@ =~= Seq::new(4000, |i: int| fill));
        let ghost tp = *transport;
        let r = write_strip(transport, row_start, row_count as u16, buf);
        proof {
            lemma_issued_then(
                t0,
                tp,
                *transport,
                clear_screen_ops(fill, strip_idx as int),
                strip_write_ops(row_start as int, 40, buf@),
                r is Ok,
            );
            assert(clear_screen_ops(fill, strip_idx as int) + strip_write_ops(
                row_start as int,
                40,
                buf@,
            ) == clear_screen_ops(fill, strip_idx + 1));
        }
        if r.is_err() {
            proof {
                lemma_clear_screen_prefix(fill, strip_idx + 1, 12);
                lemma_issued_widen(
                    t0,
                    *transport,
                    clear_screen_ops(fill, strip_idx + 1),
                    clear_screen_ops(fill, 12),
                );
            }
            return r;
        }
        strip_idx += 1;
    }
    Ok(())
}

} // verus!
