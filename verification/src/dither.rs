//! Floyd-Steinberg error diffuser: a single forward raster-scan pass that
//! quantizes each pixel in place and pushes the signed quantization error
//! into up to four not-yet-visited neighbors. Neighbors outside the raster
//! are skipped without renormalizing the weights.

use vstd::prelude::*;
use crate::pixel::RgbPixel;

verus! {

/// The error share a neighbor with weight `w` receives: `e * w / 16`,
/// rounded toward zero as the machine division does.
pub open spec fn err_delta(e: int, w: int) -> int {
    if e >= 0 {
        (e * w) / 16
    } else {
        -((-e * w) / 16)
    }
}

/// A channel value with a delta added, saturating at the 8-bit bounds.
pub open spec fn clamped_add(v: int, d: int) -> int {
    if v + d < 0 {
        0
    } else if v + d > 255 {
        255
    } else {
        v + d
    }
}

/// A pixel with weight `w`'s share of the error `e` added to every
/// channel, saturating.
pub open spec fn diffused(p: RgbPixel, e: (int, int, int), w: int) -> RgbPixel {
    RgbPixel {
        red: clamped_add(p.red as int, err_delta(e.0, w)) as i32,
        green: clamped_add(p.green as int, err_delta(e.1, w)) as i32,
        blue: clamped_add(p.blue as int, err_delta(e.2, w)) as i32,
    }
}

/// The signed per-channel quantization error of a pixel: original minus
/// displayed value.
pub open spec fn quant_error_of(p: RgbPixel) -> (int, int, int) {
    (
        p.red - p.quantized().red,
        p.green - p.quantized().green,
        p.blue - p.quantized().blue,
    )
}

/// One diffusion step at (x, y) of a width x height raster: quantize the
/// pixel in place, then add the weighted error to the right, lower-left,
/// lower, and lower-right neighbors that exist, in that order.
pub open spec fn dither_step(r: Seq<RgbPixel>, w: int, h: int, x: int, y: int) -> Seq<RgbPixel> {
    let idx = y * w + x;
    let e = quant_error_of(r[idx]);
    let r0 = r.update(idx, r[idx].quantized());
    let r1 = if x + 1 < w {
        r0.update(idx + 1, diffused(r0[idx + 1], e, 7))
    } else {
        r0
    };
    let r2 = if x != 0 && y + 1 < h {
        r1.update((y + 1) * w + x - 1, diffused(r1[(y + 1) * w + x - 1], e, 3))
    } else {
        r1
    };
    let r3 = if y + 1 < h {
        r2.update((y + 1) * w + x, diffused(r2[(y + 1) * w + x], e, 5))
    } else {
        r2
    };
    if x + 1 < w && y + 1 < h {
        r3.update((y + 1) * w + x + 1, diffused(r3[(y + 1) * w + x + 1], e, 1))
    } else {
        r3
    }
}

/// The raster after the first `n` pixels in row-major scan order have
/// been processed.
pub open spec fn dither_upto(r: Seq<RgbPixel>, w: int, h: int, n: int) -> Seq<RgbPixel>
    decreases n,
{
    if n <= 0 {
        r
    } else {
        dither_step(dither_upto(r, w, h, n - 1), w, h, (n - 1) % w, (n - 1) / w)
    }
}

/// The fully diffused raster: every pixel processed once, row-major,
/// left to right, top to bottom.
pub open spec fn dither_spec(r: Seq<RgbPixel>, w: int, h: int) -> Seq<RgbPixel> {
    dither_upto(r, w, h, w * h)
}

/// A channel holding one of the four displayed levels.
pub open spec fn expanded_channel(v: int) -> bool {
    v == 0 || v == 85 || v == 170 || v == 255
}

/// A pixel whose every channel is a displayed (re-expanded) level.
pub open spec fn expanded_pixel(p: RgbPixel) -> bool {
    expanded_channel(p.red as int) && expanded_channel(p.green as int) && expanded_channel(
        p.blue as int,
    )
}

/// Add one weighted share of the diffused error to a pixel, clamping each
/// channel to [0, 255] with saturating arithmetic so bright channels
/// cannot wrap around.
pub fn rgb8_quant_error(pixel: RgbPixel, difference: [i32; 3], quant_num: i32) -> (r: RgbPixel)
    requires
        pixel.in_range(),
        0 <= quant_num <= 15,
        -255 <= difference@[0] <= 255,
        -255 <= difference@[1] <= 255,
        -255 <= difference@[2] <= 255,
    ensures
        r == diffused(
            pixel,
            (difference@[0] as int, difference@[1] as int, difference@[2] as int),
            quant_num as int,
        ),
        r.in_range(),
{
    let red = add_error_channel(pixel.red, difference[0], quant_num);
    let green = add_error_channel(pixel.green, difference[1], quant_num);
    let blue = add_error_channel(pixel.blue, difference[2], quant_num);
    RgbPixel { red, green, blue }
}

/// One channel of the diffusion: scale the error by `w/16` rounding
/// toward zero, add it, and clamp to the 8-bit range.
fn add_error_channel(v: i32, d: i32, w: i32) -> (r: i32)
    requires
        0 <= v <= 255,
        -255 <= d <= 255,
        0 <= w <= 15,
    ensures
        r == clamped_add(v as int, err_delta(d as int, w as int)),
        0 <= r <= 255,
{
    let mag: i32 = if d >= 0 {
        d
    } else {
        -d
    };
    proof {
        assert(0 <= mag as int * w as int <= 3825) by (nonlinear_arith)
            requires
                0 <= mag <= 255,
                0 <= w <= 15,
        ;
    }
    let scaled: i32 = ((mag as u32 * w as u32) / 16) as i32;
    proof {
        vstd::arithmetic::div_mod::lemma_div_pos_is_pos(mag as int * w as int, 16);
        vstd::arithmetic::div_mod::lemma_div_is_ordered(mag as int * w as int, 3825, 16);
        assert(3825int / 16 == 239);
    }
    let delta: i32 = if d >= 0 {
        scaled
    } else {
        -scaled
    };
    let sum: i32 = v + delta;
    if sum < 0 {
        0
    } else if sum > 255 {
        255
    } else {
        sum
    }
}

/// Diffuse a width x height raster in one forward pass. The result is the
/// unique raster the scan-order recurrence describes, and every output
/// pixel holds only displayed levels {0, 85, 170, 255}.
pub fn floyd_steinberg_dither(input: &Vec<RgbPixel>, width: usize, height: usize) -> (r: Vec<
    RgbPixel,
>)
    requires
        input@.len() == width * height,
        forall|k: int| 0 <= k < input@.len() ==> (#[trigger] input@[k]).in_range(),
    ensures
        r@ == dither_spec(input@, width as int, height as int),
        r@.len() == input@.len(),
        forall|k: int| 0 <= k < r@.len() ==> expanded_pixel(#[trigger] r@[k]),
{
    let ghost w = width as int;
    let ghost h = height as int;
    let mut img: Vec<RgbPixel> = Vec::new();
    let mut c: usize = 0;
    while c < input.len()
        invariant
            c <= input@.len(),
            img@ == input@.subrange(0, c as int),
        decreases input@.len() - c,
    {
        img.push(input[c]);
        c = c + 1;
    }
    proof {
        assert(img@ =~= input@);
    }
    let mut y: usize = 0;
    while y < height
        invariant
            w == width as int,
            h == height as int,
            input@.len() == width * height,
            input@.len() <= usize::MAX,
            forall|k: int| 0 <= k < input@.len() ==> (#[trigger] input@[k]).in_range(),
            img@.len() == input@.len(),
            y <= height,
            img@ == dither_upto(input@, w, h, (y as int) * w),
            forall|k: int| 0 <= k < img@.len() ==> (#[trigger] img@[k]).in_range(),
            forall|k: int| 0 <= k < (y as int) * w ==> expanded_pixel(#[trigger] img@[k]),
        decreases height - y,
    {
        let mut x: usize = 0;
        while x < width
            invariant
                w == width as int,
                h == height as int,
                input@.len() == width * height,
                input@.len() <= usize::MAX,
                forall|k: int| 0 <= k < input@.len() ==> (#[trigger] input@[k]).in_range(),
                img@.len() == input@.len(),
                y < height,
                x <= width,
                img@ == dither_upto(input@, w, h, (y as int) * w + x as int),
                forall|k: int| 0 <= k < img@.len() ==> (#[trigger] img@[k]).in_range(),
                forall|k: int|
                    0 <= k < (y as int) * w + x as int ==> expanded_pixel(#[trigger] img@[k]),
            decreases width - x,
        {
            proof {
                assert((y as int) * w + x < w * h && (y as int + 1) * w == (y as int) * w + w && (
                x + 1 < w ==> (y as int) * w + x + 1 < w * h) && (y as int + 1 < h ==> (y as int
                    + 1) * w + x < w * h) && (y as int + 1 < h && x + 1 < w ==> (y as int + 1) * w
                    + x + 1 < w * h)) by (nonlinear_arith)
                    requires
                        0 <= x < w,
                        0 <= y < h,
                ;
            }
            let idx: usize = y * width + x;
            let pixel = img[idx];
            let pixel_color_reduced = pixel.to_2bpc_color_full_range();
            let quant_error: [i32; 3] = [
                pixel.red - pixel_color_reduced.red,
                pixel.green - pixel_color_reduced.green,
                pixel.blue - pixel_color_reduced.blue,
            ];
            img[idx] = pixel_color_reduced;
            if x + 1 < width {
                let t = img[idx + 1];
                img[idx + 1] = rgb8_quant_error(t, quant_error, 7);
            }
            if x != 0 && y + 1 < height {
                let j: usize = (y + 1) * width + x - 1;
                let t = img[j];
                img[j] = rgb8_quant_error(t, quant_error, 3);
            }
            if y + 1 < height {
                let j: usize = (y + 1) * width + x;
                let t = img[j];
                img[j] = rgb8_quant_error(t, quant_error, 5);
            }
            if x + 1 < width && y + 1 < height {
                let j: usize = (y + 1) * width + x + 1;
                let t = img[j];
                img[j] = rgb8_quant_error(t, quant_error, 1);
            }
            proof {
                let n: int = (y as int) * w + x as int;
                vstd::arithmetic::div_mod::lemma_fundamental_div_mod_converse(
                    n,
                    w,
                    y as int,
                    x as int,
                );
                assert(dither_upto(input@, w, h, n + 1) == dither_step(
                    dither_upto(input@, w, h, n),
                    w,
                    h,
                    x as int,
                    y as int,
                ));
                assert(img@ =~= dither_step(
                    dither_upto(input@, w, h, n),
                    w,
                    h,
                    x as int,
                    y as int,
                ));
            }
            x = x + 1;
        }
        proof {
            assert((y as int + 1) * w == (y as int) * w + w) by (nonlinear_arith);
        }
        y = y + 1;
    }
    proof {
        vstd::arithmetic::mul::lemma_mul_is_commutative(w, h);
    }
    img
}

/// Error conservation: for an interior pixel all four weighted shares are
/// delivered, and their sum reproduces the pixel's quantization error up
/// to the truncation loss of the four divisions, strictly less than one
/// unit per hop.
pub proof fn lemma_diffusion_conserves_error(e: int)
    requires
        -255 <= e <= 255,
    ensures
        ({
            let s = err_delta(e, 7) + err_delta(e, 3) + err_delta(e, 5) + err_delta(e, 1);
            &&& e >= 0 ==> e - 4 < s <= e
            &&& e < 0 ==> e <= s < e + 4
        }),
{
    if e >= 0 {
        lemma_quarters(e);
    } else {
        lemma_quarters(-e);
    }
}

/// For a nonnegative error, the four truncated shares sum back to the
/// error minus less than four units.
proof fn lemma_quarters(m: int)
    requires
        0 <= m,
    ensures
        m - 4 < (m * 7) / 16 + (m * 3) / 16 + (m * 5) / 16 + (m * 1) / 16 <= m,
{
    vstd::arithmetic::div_mod::lemma_fundamental_div_mod(m * 7, 16);
    vstd::arithmetic::div_mod::lemma_fundamental_div_mod(m * 3, 16);
    vstd::arithmetic::div_mod::lemma_fundamental_div_mod(m * 5, 16);
    vstd::arithmetic::div_mod::lemma_fundamental_div_mod(m * 1, 16);
    vstd::arithmetic::div_mod::lemma_mod_bound(m * 7, 16);
    vstd::arithmetic::div_mod::lemma_mod_bound(m * 3, 16);
    vstd::arithmetic::div_mod::lemma_mod_bound(m * 5, 16);
    vstd::arithmetic::div_mod::lemma_mod_bound(m * 1, 16);
}

/// Determinism: the diffused raster is a function of the input raster and
/// dimensions alone, so two runs over the same frame agree byte for byte.
pub proof fn lemma_dither_deterministic(
    input: Seq<RgbPixel>,
    w: int,
    h: int,
    r1: Seq<RgbPixel>,
    r2: Seq<RgbPixel>,
)
    requires
        r1 == dither_spec(input, w, h),
        r2 == dither_spec(input, w, h),
    ensures
        r1 == r2,
{
}

/// Boundary case: on a 1x1 raster the single pixel is quantized and all
/// four neighbor writes are skipped, so no error leaves the pixel.
pub proof fn lemma_dither_single_pixel(r: Seq<RgbPixel>)
    requires
        r.len() == 1,
    ensures
        dither_spec(r, 1, 1) == r.update(0, r[0].quantized()),
{
    assert(dither_upto(r, 1, 1, 0) == r);
    assert(0int % 1 == 0 && 0int / 1 == 0);
    assert(dither_spec(r, 1, 1) == dither_step(r, 1, 1, 0, 0));
}

} // verus!
