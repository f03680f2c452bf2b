//! The packed one-bit-per-pixel layout shared by strips and the frame buffer:
//! 100 bytes per panel row, most significant bit first, a set bit is white.
use vstd::prelude::*;

verus! {

/// Whether bit `k` (0 = most significant) of `b` is set, i.e. that pixel is white.
pub open spec fn bit_white(b: u8, k: u8) -> bool {
    b & (0x80u8 >> k) != 0
}

/// Whether pixel `px` of panel row `row` is white in packed rows `buf`.
pub open spec fn row_pixel(buf: Seq<u8>, row: int, px: int) -> bool {
    bit_white(buf[row * 100 + px / 8], (px % 8) as u8)
}

/// The byte whose first `n` bits (most significant first) are `w(0), ..., w(n - 1)`
/// and whose remaining bits are clear.
pub open spec fn bits_byte(w: spec_fn(int) -> bool, n: int) -> u8
    decreases n,
{
    if n <= 0 {
        0u8
    } else {
        bits_byte(w, n - 1) | (if w(n - 1) {
            0x80u8 >> ((n - 1) as u8)
        } else {
            0u8
        })
    }
}

pub proof fn lemma_or_mask(b: u8, m: u8, j: u8)
    requires
        j < 8,
    ensures
        bit_white(b | m, j) == (bit_white(m, j) || bit_white(b, j)),
{
    assert((b | m) & (0x80u8 >> j) != 0 <==> (m & (0x80u8 >> j) != 0 || b & (0x80u8 >> j) != 0))
        by (bit_vector)
        requires
            j < 8,
    ;
}

pub proof fn lemma_clear_mask(b: u8, m: u8, j: u8)
    requires
        j < 8,
    ensures
        bit_white(b & !m, j) == (!bit_white(m, j) && bit_white(b, j)),
{
    assert((b & !m) & (0x80u8 >> j) != 0 <==> (!(m & (0x80u8 >> j) != 0) && b & (0x80u8 >> j)
        != 0)) by (bit_vector)
        requires
            j < 8,
    ;
}

pub proof fn lemma_single_mask(k: u8, j: u8)
    requires
        k < 8,
        j < 8,
    ensures
        bit_white(0x80u8 >> k, j) == (j == k),
{
    assert((0x80u8 >> k) & (0x80u8 >> j) != 0 <==> j == k) by (bit_vector)
        requires
            k < 8,
            j < 8,
    ;
}

pub proof fn lemma_first_mask(a: u8, j: u8)
    requires
        a < 8,
        j < 8,
    ensures
        bit_white(0xFFu8 >> a, j) == (j >= a),
{
    assert((0xFFu8 >> a) & (0x80u8 >> j) != 0 <==> j >= a) by (bit_vector)
        requires
            a < 8,
            j < 8,
    ;
}

pub proof fn lemma_last_mask(c: u8, j: u8)
    requires
        c < 8,
        j < 8,
    ensures
        bit_white(0xFFu8 << ((7 - c) as u8), j) == (j <= c),
{
    assert((0xFFu8 << ((7 - c) as u8)) & (0x80u8 >> j) != 0 <==> j <= c) by (bit_vector)
        requires
            c < 8,
            j < 8,
    ;
}

pub proof fn lemma_both_masks(m1: u8, m2: u8, j: u8)
    requires
        j < 8,
    ensures
        bit_white(m1 & m2, j) == (bit_white(m1, j) && bit_white(m2, j)),
{
    assert((m1 & m2) & (0x80u8 >> j) != 0 <==> (m1 & (0x80u8 >> j) != 0 && m2 & (0x80u8 >> j)
        != 0)) by (bit_vector)
        requires
            j < 8,
    ;
}

pub proof fn lemma_solid_bytes(j: u8)
    requires
        j < 8,
    ensures
        bit_white(0xFFu8, j),
        !bit_white(0u8, j),
{
    assert(0xFFu8 & (0x80u8 >> j) != 0) by (bit_vector)
        requires
            j < 8,
    ;
    assert(!(0u8 & (0x80u8 >> j) != 0)) by (bit_vector);
}

/// A byte is determined by its eight bits.
pub proof fn lemma_byte_from_bits(b: u8)
    ensures
        bits_byte(|j: int| bit_white(b, j as u8), 8) == b,
{
    reveal_with_fuel(bits_byte, 9);
    assert(b == ((((((((0u8 | (if b & (0x80u8 >> 0u8) != 0 {
        0x80u8 >> 0u8
    } else {
        0u8
    })) | (if b & (0x80u8 >> 1u8) != 0 {
        0x80u8 >> 1u8
    } else {
        0u8
    })) | (if b & (0x80u8 >> 2u8) != 0 {
        0x80u8 >> 2u8
    } else {
        0u8
    })) | (if b & (0x80u8 >> 3u8) != 0 {
        0x80u8 >> 3u8
    } else {
        0u8
    })) | (if b & (0x80u8 >> 4u8) != 0 {
        0x80u8 >> 4u8
    } else {
        0u8
    })) | (if b & (0x80u8 >> 5u8) != 0 {
        0x80u8 >> 5u8
    } else {
        0u8
    })) | (if b & (0x80u8 >> 6u8) != 0 {
        0x80u8 >> 6u8
    } else {
        0u8
    })) | (if b & (0x80u8 >> 7u8) != 0 {
        0x80u8 >> 7u8
    } else {
        0u8
    }))) by (bit_vector);
}

/// `bits_byte` depends only on the first `n` values of `w`.
pub proof fn lemma_bits_byte_ext(w1: spec_fn(int) -> bool, w2: spec_fn(int) -> bool, n: int)
    requires
        forall|j: int| 0 <= j < n ==> #[trigger] w1(j) == w2(j),
    ensures
        bits_byte(w1, n) == bits_byte(w2, n),
    decreases n,
{
    if n > 0 {
        lemma_bits_byte_ext(w1, w2, n - 1);
    }
}

/// Reading a pixel back from the byte that holds it.
pub proof fn lemma_row_pixel_byte(buf: Seq<u8>, i: int, j: int)
    requires
        0 <= i,
        0 <= j < 8,
    ensures
        row_pixel(buf, i / 100, (i % 100) * 8 + j) == bit_white(buf[i], j as u8),
{
    let px = (i % 100) * 8 + j;
    assert(px / 8 == i % 100);
    assert(px % 8 == j);
    assert((i / 100) * 100 + i % 100 == i);
}

/// The packed byte at index `i` of `buf`, rebuilt from its pixels.
pub proof fn lemma_byte_from_pixels(buf: Seq<u8>, i: int)
    requires
        0 <= i < buf.len(),
    ensures
        buf[i] == bits_byte(|j: int| row_pixel(buf, i / 100, (i % 100) * 8 + j), 8),
{
    lemma_byte_from_bits(buf[i]);
    let w1 = |j: int| bit_white(buf[i], j as u8);
    let w2 = |j: int| row_pixel(buf, i / 100, (i % 100) * 8 + j);
    assert forall|j: int| 0 <= j < 8 implies #[trigger] w1(j) == w2(j) by {
        lemma_row_pixel_byte(buf, i, j);
    }
    lemma_bits_byte_ext(w1, w2, 8);
}

/// Bit `j` of `bits_byte(w, n)` is `w(j)` for the first `n` bits and clear after.
pub proof fn lemma_bits_byte_bit(w: spec_fn(int) -> bool, n: int, j: u8)
    requires
        0 <= n <= 8,
        j < 8,
    ensures
        bit_white(bits_byte(w, n), j) == (j < n && w(j as int)),
    decreases n,
{
    if n <= 0 {
        lemma_solid_bytes(j);
    } else {
        lemma_bits_byte_bit(w, n - 1, j);
        let m: u8 = if w(n - 1) {
            0x80u8 >> ((n - 1) as u8)
        } else {
            0u8
        };
        lemma_or_mask(bits_byte(w, n - 1), m, j);
        if w(n - 1) {
            lemma_single_mask((n - 1) as u8, j);
        } else {
            lemma_solid_bytes(j);
        }
    }
}

} // verus!
