use vstd::prelude::*;

use crate::display::bits::bits_byte;
use crate::display::ssd1677::{ROW_BYTES, STRIP_BUFFER_BYTES};

verus! {

#[derive(Clone, Copy, Debug, Eq, PartialEq, Structural)]
pub struct StripGeometry {
    pub rows_per_strip: usize,
    pub strip_count: usize,
    pub last_strip_rows: usize,
}

/// How `total_rows` rows split into strips of `STRIP_BUFFER_BYTES / ROW_BYTES` rows:
/// the number of strips (rounded up) and the rows left for the last one.
pub fn strip_geometry(total_rows: usize) -> (g: StripGeometry)
    ensures
        g.rows_per_strip == 40,
        g.strip_count == (total_rows + 39) / 40,
        g.strip_count == 0 ==> g.last_strip_rows == 0,
        g.strip_count > 0 ==> g.last_strip_rows == total_rows - 40 * (g.strip_count - 1),
        g.strip_count > 0 ==> 0 < g.last_strip_rows <= 40,
{
    let rows_per_strip = STRIP_BUFFER_BYTES / ROW_BYTES;
    assert(rows_per_strip == 40);
    assert(total_rows == 40 * (total_rows / 40) + total_rows % 40);
    let strip_count = total_rows / rows_per_strip + if total_rows % rows_per_strip != 0 {
        1usize
    } else {
        0usize
    };
    let last_strip_rows = if strip_count == 0 {
        0
    } else {
        total_rows - (rows_per_strip * (strip_count - 1))
    };

    StripGeometry { rows_per_strip, strip_count, last_strip_rows }
}

/// The packed byte for the 8 one-byte pixels of `pixels` starting at `start`.
pub open spec fn packed_byte(pixels: Seq<u8>, start: int) -> u8 {
    bits_byte(|j: int| pixels[start + j] != 0, 8)
}

proof fn lemma_or_zero(b: u8)
    ensures
        b | 0u8 == b,
{
    assert(b | 0u8 == b) by (bit_vector);
}

proof fn lemma_shift_left_is_mask(bit: u8)
    requires
        bit < 8,
    ensures
        1u8 << (7 - bit) == 0x80u8 >> bit,
{
    assert(1u8 << ((7 - bit) as u8) == 0x80u8 >> bit) by (bit_vector)
        requires
            bit < 8,
    ;
}

proof fn lemma_grid_index(r: int, c: int, row: int, width: int)
    requires
        0 <= r < row,
        0 <= c < width,
    ensures
        r * width + c < row * width,
        row * width + width == (row + 1) * width,
{
    assert(r * width + c < row * width) by (nonlinear_arith)
        requires
            0 <= r < row,
            0 <= c < width,
    ;
    assert(row * width + width == (row + 1) * width) by (nonlinear_arith);
}

proof fn lemma_mul_step(row: int, width: int)
    ensures
        (row + 1) * width == row * width + width,
{
    assert((row + 1) * width == row * width + width) by (nonlinear_arith);
}

proof fn lemma_grid_monotone(row: int, rows: int, width: int)
    requires
        0 <= row < rows,
        0 <= width,
    ensures
        (row + 1) * width <= rows * width,
        0 <= row * width,
{
    assert((row + 1) * width <= rows * width) by (nonlinear_arith)
        requires
            0 <= row < rows,
            0 <= width,
    ;
    assert(0 <= row * width) by (nonlinear_arith)
        requires
            0 <= row,
            0 <= width,
    ;
}

/// Pack monochrome pixels into 1-bit-per-pixel wire format.
///
/// `pixels` — one byte per pixel, 0 = black, non-zero = white.
/// `width`  — pixels per row; must be a multiple of 8.
/// `rows`   — number of rows to pack.
/// `dst`    — output buffer; must hold at least `rows * (width / 8)` bytes.
///
/// Bit order: MSB first — pixel 0 maps to bit 7 of the first output byte.
pub fn pack_strip(pixels: &[u8], width: usize, rows: usize, dst: &mut [u8])
    requires
        rows * width <= pixels@.len(),
        rows * (width / 8) <= old(dst)@.len(),
    ensures
        final(dst)@.len() == old(dst)@.len(),
        forall|r: int, b: int|
            0 <= r < rows && 0 <= b < width / 8 ==> #[trigger] final(dst)@[r * (width / 8) + b]
                == packed_byte(pixels@, r * width + b * 8),
        forall|i: int|
            rows * (width / 8) <= i < final(dst)@.len() ==> #[trigger] final(dst)@[i] == old(
                dst,
            )@[i],
{
    let row_bytes = width / 8;
    let plen = pixels.len();
    let dlen = dst.len();
    let mut row: usize = 0;
    while row < rows
        invariant
            row <= rows,
            row_bytes == width / 8,
            plen == pixels@.len(),
            dlen == dst@.len(),
            dst@.len() == old(dst)@.len(),
            rows * width <= plen,
            rows * row_bytes <= dlen,
            forall|r: int, b: int|
                0 <= r < row && 0 <= b < row_bytes ==> #[trigger] dst@[r * row_bytes + b]
                    == packed_byte(pixels@, r * width + b * 8),
            forall|i: int| row * row_bytes <= i < dst@.len() ==> #[trigger] dst@[i] == old(dst)@[i],
        decreases rows - row,
    {
        proof {
            lemma_grid_monotone(row as int, rows as int, width as int);
            lemma_grid_monotone(row as int, rows as int, row_bytes as int);
            lemma_mul_step(row as int, width as int);
            lemma_mul_step(row as int, row_bytes as int);
        }
        let row_base = row * width;
        let out_base = row * row_bytes;
        let mut col_byte: usize = 0;
        while col_byte < row_bytes
            invariant
                col_byte <= row_bytes,
                row < rows,
                row_bytes == width / 8,
                row_base == row * width,
                out_base == row * row_bytes,
                row_base + width <= plen,
                out_base + row_bytes <= dlen,
                plen == pixels@.len(),
                dlen == dst@.len(),
                dst@.len() == old(dst)@.len(),
                forall|r: int, b: int|
                    0 <= r < row && 0 <= b < row_bytes ==> #[trigger] dst@[r * row_bytes + b]
                        == packed_byte(pixels@, r * width + b * 8),
                forall|b: int|
                    0 <= b < col_byte ==> #[trigger] dst@[out_base + b] == packed_byte(
                        pixels@,
                        row_base + b * 8,
                    ),
                forall|i: int|
                    out_base + col_byte <= i < dst@.len() ==> #[trigger] dst@[i] == old(dst)@[i],
            decreases row_bytes - col_byte,
        {
            let start = row_base + col_byte * 8;
            let ghost w = |j: int| pixels@[start + j] != 0;
            let mut byte = 0u8;
            let mut bit: u8 = 0;
            while bit < 8
                invariant
                    bit <= 8,
                    start + 8 <= plen,
                    plen == pixels@.len(),
                    w == (|j: int| pixels@[start + j] != 0),
                    byte == bits_byte(w, bit as int),
                decreases 8 - bit,
            {
                let ghost before = byte;
                if pixels[start + bit as usize] != 0 {
                    proof {
                        lemma_shift_left_is_mask(bit);
                    }
                    byte |= 1 << (7 - bit);
                } else {
                    proof {
                        lemma_or_zero(before);
                    }
                }
                bit += 1;
            }
            proof {
                lemma_grid_index(row as int, col_byte as int, row as int + 1, row_bytes as int);
            }
            let ghost prev = dst@;
            dst[out_base + col_byte] = byte;
            proof {
                assert forall|r: int, b: int| 0 <= r < row && 0 <= b < row_bytes implies #[trigger] dst@[r
                    * row_bytes + b] == packed_byte(pixels@, r * width + b * 8) by {
                    lemma_grid_index(r, b, row as int, row_bytes as int);
                    assert(prev[r * row_bytes + b] == packed_byte(pixels@, r * width + b * 8));
                }
            }
            col_byte += 1;
        }
        proof {
            assert forall|r: int, b: int| 0 <= r < row + 1 && 0 <= b < row_bytes implies #[trigger] dst@[r
                * row_bytes + b] == packed_byte(pixels@, r * width + b * 8) by {
                if r == row {
                } else {
                    lemma_grid_index(r, b, row as int, row_bytes as int);
                }
            }
            lemma_mul_step(row as int, row_bytes as int);
        }
        row += 1;
    }
}

} // verus!
