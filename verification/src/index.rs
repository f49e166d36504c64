//! Index derivation: from the sixteen bytes of an identifier to a position in a
//! table of words.

use vstd::prelude::*;

verus! {

/// Largest value that [`digit_mult`] can take: four products of two bytes.
pub const MAX_DIGIT_MULT: usize = 260_100;

/// The sum of the first `count` products `bytes[first_index + i] * bytes[first_index + 4 + i]`.
spec fn paired_products(bytes: Seq<u8>, first_index: int, count: nat) -> int
    decreases count,
{
    if count == 0 {
        0
    } else {
        paired_products(bytes, first_index, (count - 1) as nat) + bytes[first_index + count - 1]
            * bytes[first_index + 4 + count - 1]
    }
}

/// The number that an eight-byte stretch of an identifier stands for: the
/// stretch is cut into two windows of four bytes, the bytes at the same place
/// in the two windows are multiplied, and the four products are added.
pub open spec fn digit_mult(bytes: Seq<u8>, first_index: int) -> int {
    bytes[first_index] * bytes[first_index + 4] + bytes[first_index + 1] * bytes[first_index + 5]
        + bytes[first_index + 2] * bytes[first_index + 6] + bytes[first_index + 3] * bytes[first_index
        + 7]
}

/// The position in a table of `table_length` words that the stretch starting
/// at `first_index` selects.
pub open spec fn table_index(bytes: Seq<u8>, first_index: int, table_length: int) -> int {
    digit_mult(bytes, first_index) % table_length
}

/// The four-term sum is the fourth partial sum.
proof fn lemma_digit_mult_unfolds(bytes: Seq<u8>, first_index: int)
    ensures
        paired_products(bytes, first_index, 4) == digit_mult(bytes, first_index),
{
    reveal_with_fuel(paired_products, 5);
}

/// A product of two bytes is at most 255 * 255.
proof fn lemma_byte_product_bound(a: u8, b: u8)
    ensures
        0 <= a * b <= 65_025,
{
    assert(0 <= a * b <= 65_025) by (nonlinear_arith)
        requires
            0 <= a <= 255,
            0 <= b <= 255,
    ;
}

/// Multiplies the bytes of the window at `first_index` with those of the
/// window four bytes further on, pair by pair, and adds the products.
pub fn get_digit_mult(bytes: &[u8; 16], first_index: usize) -> (sum: usize)
    requires
        first_index <= 8,
    ensures
        sum == digit_mult(bytes@, first_index as int),
        sum <= MAX_DIGIT_MULT,
{
    let mut sum: usize = 0;
    let mut i: usize = 0;
    while i < 4
        invariant
            i <= 4,
            first_index <= 8,
            sum == paired_products(bytes@, first_index as int, i as nat),
            sum <= 65_025 * i,
        decreases 4 - i,
    {
        let v1: u8 = bytes[first_index + i];
        let v2: u8 = bytes[first_index + 4 + i];
        proof {
            lemma_byte_product_bound(v1, v2);
        }
        sum = sum + (v1 as usize) * (v2 as usize);
        i = i + 1;
    }
    proof {
        lemma_digit_mult_unfolds(bytes@, first_index as int);
    }
    sum
}

/// Derives the index into a table of `table_length` words from the stretch of
/// the identifier that starts at `offset`.
pub fn derive_index(bytes: &[u8; 16], offset: usize, table_length: usize) -> (index: usize)
    requires
        offset <= 8,
        table_length > 0,
    ensures
        index == table_index(bytes@, offset as int, table_length as int),
        index < table_length,
{
    get_digit_mult(bytes, offset) % table_length
}

} // verus!
