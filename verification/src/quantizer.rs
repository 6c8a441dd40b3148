//! Color quantizer: reduces an 8-bit channel to its top 2 bits and
//! re-expands a 2-bit level to a perceptually spaced 8-bit value.

use vstd::prelude::*;

verus! {

/// The 2-bit level an 8-bit channel value truncates to (its top two bits).
pub open spec fn reduce_level(v: int) -> int {
    v / 64
}

/// The fixed re-expansion table {0, 85, 170, 255}: full dynamic range, not
/// the left-shift mapping whose maximum is only 192.
pub open spec fn expand_level(l: int) -> int {
    if l == 0 {
        0
    } else if l == 1 {
        85
    } else if l == 2 {
        170
    } else {
        255
    }
}

/// Map a 2-bit color level to the correctly ranged 8-bit color.
pub fn color_2bit_to_8bit(color_2bit: u8) -> (r: u8)
    ensures
        r == expand_level(color_2bit as int),
{
    match color_2bit {
        0b00 => 0u8,
        0b01 => 85u8,
        0b10 => 170u8,
        _ => 255u8,
    }
}

/// Reduce the three channels of an 8-bit RGB pixel to 2 bits each.
pub fn rgb8_to_2bpc_pixel(input_pixel: &[u8]) -> (r: [u8; 3])
    requires
        input_pixel@.len() >= 3,
    ensures
        r@.len() == 3,
        r@[0] == reduce_level(input_pixel@[0] as int),
        r@[1] == reduce_level(input_pixel@[1] as int),
        r@[2] == reduce_level(input_pixel@[2] as int),
{
    proof {
        let a = input_pixel@[0];
        let b = input_pixel@[1];
        let c = input_pixel@[2];
        assert(a >> 6 == a / 64 && b >> 6 == b / 64 && c >> 6 == c / 64) by (bit_vector);
    }
    [input_pixel[0] >> 6, input_pixel[1] >> 6, input_pixel[2] >> 6]
}

/// Quantizing any 8-bit channel and re-expanding it lands on one of the four
/// display levels {0, 85, 170, 255}.
pub proof fn lemma_expand_reduce_range(v: int)
    requires
        0 <= v <= 255,
    ensures
        expand_level(reduce_level(v)) == 0 || expand_level(reduce_level(v)) == 85 || expand_level(
            reduce_level(v),
        ) == 170 || expand_level(reduce_level(v)) == 255,
{
}

/// Channel reduction is monotonic: a brighter sample never truncates to a
/// darker 2-bit level.
pub proof fn lemma_reduce_monotonic(a: int, b: int)
    requires
        0 <= a <= b,
    ensures
        reduce_level(a) <= reduce_level(b),
{
    vstd::arithmetic::div_mod::lemma_div_is_ordered(a, b, 64);
}

} // verus!
