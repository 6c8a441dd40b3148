use sharpie::{
    dimensions_ok, format_image, gen_luts, two_pixels_to_msb_lsb, unformat_image,
    unformat_image_raw, RgbPixel,
};

fn px(r: i32, g: i32, b: i32) -> RgbPixel {
    RgbPixel { red: r, green: g, blue: b }
}

/// A raster whose channels all sit on {0, 64, 128, 192}, varying by
/// position so a misplaced byte would be caught.
fn quantized_test_raster() -> Vec<RgbPixel> {
    let mut img = Vec::with_capacity(76800);
    for i in 0..76800usize {
        let r = ((i % 4) as i32) * 64;
        let g = (((i / 4) % 4) as i32) * 64;
        let b = (((i / 16) % 4) as i32) * 64;
        img.push(px(r, g, b));
    }
    img
}

/// Round trip: a raster already quantized and left-shifted comes back
/// exactly from its encoded frame.
#[test]
fn format_unformat_round_trip() {
    let img = quantized_test_raster();
    let encoded = format_image(&img);
    assert_eq!(encoded.len(), 76800);
    let decoded = unformat_image(&encoded);
    assert_eq!(decoded, img);
}

/// Extremes: the pair (255,255,255),(0,0,0) packs to 0b111111 and
/// 0b000000 and decodes to (192,192,192),(0,0,0) - the shift-based
/// levels, not the expansion table's.
#[test]
fn extreme_pair_packs_and_decodes() {
    let (msb, lsb) = two_pixels_to_msb_lsb(0b111111, 0b000000);
    assert_eq!(msb, 0b010101);
    assert_eq!(lsb, 0b010101);

    let mut img = vec![px(0, 0, 0); 76800];
    img[0] = px(255, 255, 255);
    let encoded = format_image(&img);
    let decoded = unformat_image(&encoded);
    assert_eq!(decoded[0], px(192, 192, 192));
    assert_eq!(decoded[1], px(0, 0, 0));
}

/// The raw unpacked form holds one 6-bit 0bBBGGRR byte per pixel.
#[test]
fn raw_decode_gives_six_bit_pixels() {
    let mut img = vec![px(0, 0, 0); 76800];
    img[0] = px(255, 0, 0); // red only: 0b000011
    img[1] = px(0, 255, 0); // green only: 0b001100
    img[240] = px(0, 0, 255); // blue only: 0b110000
    let encoded = format_image(&img);
    let raw = unformat_image_raw(&encoded);
    assert_eq!(raw.len(), 76800);
    assert_eq!(raw[0], 0b000011);
    assert_eq!(raw[1], 0b001100);
    assert_eq!(raw[240], 0b110000);
    assert_eq!(raw[2], 0);
}

/// The lookup tables agree with the packer on every 6-bit pixel pair.
#[test]
fn luts_match_packer() {
    let (msb_lut, lsb_lut) = gen_luts();
    assert_eq!(msb_lut.len(), 4096);
    assert_eq!(lsb_lut.len(), 4096);
    for i in 0..64usize {
        for j in 0..64usize {
            let (m, l) = two_pixels_to_msb_lsb(i as u8, j as u8);
            assert_eq!(msb_lut[(i << 6) | j], m);
            assert_eq!(lsb_lut[(i << 6) | j], l);
        }
    }
}

/// Masking in the packer ignores bits above the low six.
#[test]
fn packer_masks_high_bits() {
    assert_eq!(
        two_pixels_to_msb_lsb(0b11111111, 0b11000000),
        two_pixels_to_msb_lsb(0b00111111, 0b00000000)
    );
}

/// The size guard accepts only the panel's exact dimensions.
#[test]
fn size_guard_rejects_wrong_dimensions() {
    assert!(dimensions_ok(240, 320));
    assert!(!dimensions_ok(240, 100));
    assert!(!dimensions_ok(100, 320));
    assert!(!dimensions_ok(320, 240));
}
