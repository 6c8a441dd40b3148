use sharpie::{floyd_steinberg_dither, rgb8_quant_error, unformat_image, format_image, RgbPixel};

fn px(r: i32, g: i32, b: i32) -> RgbPixel {
    RgbPixel { red: r, green: g, blue: b }
}

fn gradient_raster() -> Vec<RgbPixel> {
    let mut img = Vec::with_capacity(76800);
    for i in 0..76800usize {
        let v = (i % 256) as i32;
        img.push(px(v, 255 - v, (i / 256 % 256) as i32));
    }
    img
}

/// Determinism: two runs over the same raster agree byte for byte.
#[test]
fn dither_is_deterministic() {
    let img = gradient_raster();
    let a = floyd_steinberg_dither(&img, 240, 320);
    let b = floyd_steinberg_dither(&img, 240, 320);
    assert_eq!(a, b);
}

/// Every diffused pixel holds only the four displayed levels.
#[test]
fn dither_output_is_display_levels() {
    let img = gradient_raster();
    let out = floyd_steinberg_dither(&img, 240, 320);
    assert_eq!(out.len(), 76800);
    for p in &out {
        for c in [p.red, p.green, p.blue] {
            assert!(c == 0 || c == 85 || c == 170 || c == 255);
        }
    }
}

/// Boundary: a 1x1 raster is quantized and no error is propagated.
#[test]
fn dither_single_pixel_quantizes_only() {
    let out = floyd_steinberg_dither(&vec![px(128, 130, 100)], 1, 1);
    assert_eq!(out, vec![px(170, 170, 85)]);
}

/// One diffusion step to the right neighbor: mid-gray 128 quantizes to
/// 170, error -42, and the right neighbor receives -42*7/16 = -18.
#[test]
fn dither_two_pixel_row() {
    let out = floyd_steinberg_dither(&vec![px(128, 128, 128), px(128, 128, 128)], 2, 1);
    // second pixel became 128-18 = 110 before its own quantization: 110>>6 = 1 -> 85
    assert_eq!(out[0], px(170, 170, 170));
    assert_eq!(out[1], px(85, 85, 85));
}

/// Interior conservation on concrete values: the four truncated shares of
/// an error of 63 sum to 60, within one unit per hop of the error.
#[test]
fn diffusion_shares_conserve_error() {
    let base = px(100, 100, 100);
    let mut sum: i32 = 0;
    for w in [7, 3, 5, 1] {
        let bumped = rgb8_quant_error(base, [63, -63, 0], w);
        sum += bumped.red - 100;
        assert_eq!(bumped.red - 100, -(bumped.green - 100));
        assert_eq!(bumped.blue, 100);
    }
    assert_eq!(sum, 60);
    assert!(63 - sum < 4 && 63 - sum >= 0);
}

/// Saturation: a bright channel cannot wrap around when error is added.
#[test]
fn diffusion_saturates_at_bounds() {
    let bright = rgb8_quant_error(px(250, 5, 0), [255, -255, -255], 7);
    assert_eq!(bright, px(255, 0, 0));
}

/// End to end: a solid mid-gray frame diffused, encoded, and decoded
/// lands only on the shift-based levels {0, 64, 128, 192}.
#[test]
fn mid_gray_end_to_end() {
    let img = vec![px(128, 128, 128); 76800];
    let dithered = floyd_steinberg_dither(&img, 240, 320);
    let encoded = format_image(&dithered);
    let decoded = unformat_image(&encoded);
    for p in &decoded {
        for c in [p.red, p.green, p.blue] {
            assert!(c == 0 || c == 64 || c == 128 || c == 192);
        }
    }
}

/// The weight domain spans the full 0..=15 the error helper documents:
/// weight 0 changes nothing, weight 15 delivers 15/16 of the error.
#[test]
fn diffusion_weight_domain() {
    let base = px(100, 200, 30);
    assert_eq!(rgb8_quant_error(base, [63, -63, 17], 0), base);
    let full = rgb8_quant_error(base, [63, -63, 17], 15);
    // 63*15/16 = 59, truncated toward zero on both signs; 17*15/16 = 15
    assert_eq!(full, px(159, 141, 45));
}
