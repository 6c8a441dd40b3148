use sharpie::{color_2bit_to_8bit, rgb8_to_2bpc_pixel};

/// Every 8-bit channel value quantizes and re-expands onto one of the four
/// display levels, and reduction is monotonic in the input.
#[test]
fn expand_of_reduce_lands_on_display_levels() {
    let mut prev: u8 = 0;
    for v in 0..=255u8 {
        let reduced = rgb8_to_2bpc_pixel(&[v, v, v]);
        let expanded = color_2bit_to_8bit(reduced[0]);
        assert!(expanded == 0 || expanded == 85 || expanded == 170 || expanded == 255);
        assert!(reduced[0] >= prev, "reduction must be monotonic");
        prev = reduced[0];
    }
}

#[test]
fn expansion_table_exact() {
    assert_eq!(color_2bit_to_8bit(0b00), 0);
    assert_eq!(color_2bit_to_8bit(0b01), 85);
    assert_eq!(color_2bit_to_8bit(0b10), 170);
    assert_eq!(color_2bit_to_8bit(0b11), 255);
}

#[test]
fn reduction_takes_top_two_bits() {
    assert_eq!(rgb8_to_2bpc_pixel(&[0, 63, 64]), [0, 0, 1]);
    assert_eq!(rgb8_to_2bpc_pixel(&[127, 128, 191]), [1, 2, 2]);
    assert_eq!(rgb8_to_2bpc_pixel(&[192, 255, 200]), [3, 3, 3]);
}
