//! Frame codec for the panel's split-plane wire format: each row of a
//! 240x320 raster is packed as 120 "MSB bytes" followed by 120 "LSB bytes",
//! one byte pair per two horizontally adjacent 6-bit `0bBBGGRR` pixels.

use vstd::prelude::*;
use crate::pixel::{six_of, RgbPixel};

verus! {

/// The byte holding the high bit of every channel of a pixel pair: the
/// second pixel's bits sit in the higher position of each channel slot.
pub open spec fn msb_of(p1: u8, p2: u8) -> u8 {
    (((p2 >> 5) & 1) << 5) | (((p2 >> 3) & 1) << 3) | (((p2 >> 1) & 1) << 1) | (((p1 >> 5) & 1)
        << 4) | (((p1 >> 3) & 1) << 2) | ((p1 >> 1) & 1)
}

/// The byte holding the low bit of every channel of a pixel pair.
pub open spec fn lsb_of(p1: u8, p2: u8) -> u8 {
    (((p2 >> 4) & 1) << 5) | (((p2 >> 2) & 1) << 3) | ((p2 & 1) << 1) | (((p1 >> 4) & 1) << 4) | ((
    (p1 >> 2) & 1) << 2) | (p1 & 1)
}

/// The 6-bit `0bBBGGRR` value of the pair's first (even-column) pixel,
/// reassembled from its byte pair.
pub open spec fn six_even_of(msb: u8, lsb: u8) -> u8 {
    ((((msb >> 4) & 1) << 1 | ((lsb >> 4) & 1)) << 4) | ((((msb >> 2) & 1) << 1 | ((lsb >> 2) & 1))
        << 2) | ((msb & 1) << 1 | (lsb & 1))
}

/// The 6-bit `0bBBGGRR` value of the pair's second (odd-column) pixel.
pub open spec fn six_odd_of(msb: u8, lsb: u8) -> u8 {
    ((((msb >> 5) & 1) << 1 | ((lsb >> 5) & 1)) << 4) | ((((msb >> 3) & 1) << 1 | ((lsb >> 3) & 1))
        << 2) | (((msb >> 1) & 1) << 1 | ((lsb >> 1) & 1))
}

/// The 8-bit pixel a 6-bit `0bBBGGRR` value unpacks to: each 2-bit channel
/// left-shifted by 6, landing on {0, 64, 128, 192} rather than the
/// quantizer's expansion table. That asymmetry is inherent to the format.
pub open spec fn unpacked_pixel(six: u8) -> RgbPixel {
    RgbPixel {
        red: ((six & 3) << 6) as i32,
        green: (((six >> 2) & 3) << 6) as i32,
        blue: (((six >> 4) & 3) << 6) as i32,
    }
}

/// Packing two 6-bit pixels into their byte pair and pulling both back out
/// is lossless.
pub proof fn lemma_pair_roundtrip(p1: u8, p2: u8)
    requires
        p1 < 64,
        p2 < 64,
    ensures
        six_even_of(msb_of(p1, p2), lsb_of(p1, p2)) == p1,
        six_odd_of(msb_of(p1, p2), lsb_of(p1, p2)) == p2,
{
    assert((p1 < 64 && p2 < 64) ==> six_even_of(msb_of(p1, p2), lsb_of(p1, p2)) == p1
        && six_odd_of(msb_of(p1, p2), lsb_of(p1, p2)) == p2) by (bit_vector);
}

/// Convert two pixels in `0bBBGGRR` format to their shared MSB and LSB
/// bytes.
pub fn two_pixels_to_msb_lsb(p1: u8, p2: u8) -> (r: (u8, u8))
    ensures
        r.0 == msb_of(p1, p2),
        r.1 == lsb_of(p1, p2),
{
    let p1red: u8 = p1 & 0b11;
    let p1green: u8 = (p1 & 0b1100) >> 2;
    let p1blue: u8 = (p1 & 0b110000) >> 4;
    let p2red: u8 = p2 & 0b11;
    let p2green: u8 = (p2 & 0b1100) >> 2;
    let p2blue: u8 = (p2 & 0b110000) >> 4;

    // the high bit of each 2-bit channel, each 0 or 1
    let p1red_m: u8 = p1red >> 1;
    let p1green_m: u8 = p1green >> 1;
    let p1blue_m: u8 = p1blue >> 1;
    let p2red_m: u8 = p2red >> 1;
    let p2green_m: u8 = p2green >> 1;
    let p2blue_m: u8 = p2blue >> 1;

    // the second pixel goes in the higher position of each slot, the
    // first in the lower
    let msb: u8 = (p2blue_m << 5) | (p2green_m << 3) | (p2red_m << 1) | (p1blue_m << 4) | (
    p1green_m << 2) | p1red_m;

    // the low bit of each channel, laid out the same way
    let p1red_l: u8 = p1red & 1;
    let p1green_l: u8 = p1green & 1;
    let p1blue_l: u8 = p1blue & 1;
    let p2red_l: u8 = p2red & 1;
    let p2green_l: u8 = p2green & 1;
    let p2blue_l: u8 = p2blue & 1;

    let lsb: u8 = (p2blue_l << 5) | (p2green_l << 3) | (p2red_l << 1) | (p1blue_l << 4) | (
    p1green_l << 2) | p1red_l;

    proof {
        assert(((((p2 & 0b110000) >> 4) >> 1) << 5) | ((((p2 & 0b1100) >> 2) >> 1) << 3) | (((p2
            & 0b11) >> 1) << 1) | ((((p1 & 0b110000) >> 4) >> 1) << 4) | ((((p1 & 0b1100) >> 2)
            >> 1) << 2) | ((p1 & 0b11) >> 1) == msb_of(p1, p2)) by (bit_vector);
        assert(((((p2 & 0b110000) >> 4) & 1) << 5) | ((((p2 & 0b1100) >> 2) & 1) << 3) | (((p2
            & 0b11) & 1) << 1) | ((((p1 & 0b110000) >> 4) & 1) << 4) | ((((p1 & 0b1100) >> 2) & 1)
            << 2) | ((p1 & 0b11) & 1) == lsb_of(p1, p2)) by (bit_vector);
    }
    (msb, lsb)
}

/// The 6-bit byte a raster pixel packs to.
pub open spec fn packed_six(p: RgbPixel) -> u8 {
    six_of(p) as u8
}

/// The encoded frame of a 240x320 raster: 320 rows of 120 MSB bytes
/// followed by 120 LSB bytes, one byte pair per two adjacent pixels.
pub open spec fn format_spec(img: Seq<RgbPixel>) -> Seq<u8> {
    Seq::new(
        76800,
        |k: int|
            {
                let y = k / 240;
                let c = k % 240;
                if c < 120 {
                    msb_of(
                        packed_six(img[240 * y + 2 * c]),
                        packed_six(img[240 * y + 2 * c + 1]),
                    )
                } else {
                    lsb_of(
                        packed_six(img[240 * y + 2 * (c - 120)]),
                        packed_six(img[240 * y + 2 * (c - 120) + 1]),
                    )
                }
            },
    )
}

/// The raster an encoded frame decodes to; channels land on the
/// shift-based values {0, 64, 128, 192}.
pub open spec fn unformat_spec(frame: Seq<u8>) -> Seq<RgbPixel> {
    Seq::new(
        76800,
        |j: int|
            {
                let y = j / 240;
                let x = j % 240;
                let msb = frame[240 * y + x / 2];
                let lsb = frame[240 * y + x / 2 + 120];
                if x % 2 == 0 {
                    unpacked_pixel(six_even_of(msb, lsb))
                } else {
                    unpacked_pixel(six_odd_of(msb, lsb))
                }
            },
    )
}

/// The plain row-major unpacking of an encoded frame: one 6-bit
/// `0bBBGGRR` byte per pixel.
pub open spec fn unformat_raw_spec(frame: Seq<u8>) -> Seq<u8> {
    Seq::new(
        76800,
        |j: int|
            {
                let y = j / 240;
                let x = j % 240;
                let msb = frame[240 * y + x / 2];
                let lsb = frame[240 * y + x / 2 + 120];
                if x % 2 == 0 {
                    six_even_of(msb, lsb)
                } else {
                    six_odd_of(msb, lsb)
                }
            },
    )
}

/// Position `240*y + c` of a frame sits in row `y`, column `c`.
proof fn lemma_rc(y: int, c: int)
    requires
        0 <= y,
        0 <= c < 240,
    ensures
        (240 * y + c) / 240 == y,
        (240 * y + c) % 240 == c,
{
    vstd::arithmetic::div_mod::lemma_fundamental_div_mod_converse(240 * y + c, 240, y, c);
}

/// Pack a 240x320 raster into the device's split-plane byte layout.
pub fn format_image(img: &Vec<RgbPixel>) -> (r: Vec<u8>)
    requires
        img@.len() == 76800,
        forall|k: int| 0 <= k < 76800 ==> img@[k].in_range(),
    ensures
        r@ == format_spec(img@),
        r@.len() == 76800,
{
    let mut formatted: Vec<u8> = vec![0u8; 76800];
    let mut y: usize = 0;
    while y < 320
        invariant
            img@.len() == 76800,
            forall|k: int| 0 <= k < 76800 ==> img@[k].in_range(),
            formatted@.len() == 76800,
            y <= 320,
            forall|k: int| 0 <= k < 240 * y ==> formatted@[k] == format_spec(img@)[k],
        decreases 320 - y,
    {
        let mut x: usize = 0;
        while x < 120
            invariant
                img@.len() == 76800,
                forall|k: int| 0 <= k < 76800 ==> img@[k].in_range(),
                formatted@.len() == 76800,
                y < 320,
                x <= 120,
                forall|k: int|
                    (0 <= k < 240 * y + x || 240 * y + 120 <= k < 240 * y + 120 + x)
                        ==> formatted@[k] == format_spec(img@)[k],
            decreases 120 - x,
        {
            let p1 = img[y * 240 + 2 * x];
            let p2 = img[y * 240 + 2 * x + 1];
            let pair = two_pixels_to_msb_lsb(p1.to_6bpp_pixel(), p2.to_6bpp_pixel());
            formatted[y * 240 + x] = pair.0;
            formatted[y * 240 + x + 120] = pair.1;
            proof {
                lemma_rc(y as int, x as int);
                lemma_rc(y as int, x as int + 120);
            }
            x = x + 1;
        }
        y = y + 1;
    }
    proof {
        assert(formatted@ =~= format_spec(img@));
    }
    formatted
}

/// Reassemble the two pixels sharing one MSB/LSB byte pair, re-expanded
/// to 8-bit channels by the format's left-shift rule.
fn unpack_pair(msb: u8, lsb: u8) -> (r: (RgbPixel, RgbPixel))
    ensures
        r.0 == unpacked_pixel(six_even_of(msb, lsb)),
        r.1 == unpacked_pixel(six_odd_of(msb, lsb)),
{
    let p0_red: u8 = ((msb & 0b1) << 1) | (lsb & 0b1);
    let p0_green: u8 = (((msb & 0b100) >> 2) << 1) | ((lsb & 0b100) >> 2);
    let p0_blue: u8 = ((msb & 0b10000) >> 3) | ((lsb & 0b10000) >> 4);

    let p1_red: u8 = (msb & 0b10) | ((lsb & 0b10) >> 1);
    let p1_green: u8 = ((msb & 0b1000) >> 2) | ((lsb & 0b1000) >> 3);
    let p1_blue: u8 = ((msb & 0b100000) >> 4) | ((lsb & 0b100000) >> 5);

    proof {
        assert((((msb & 0b1) << 1) | (lsb & 0b1)) == (six_even_of(msb, lsb) & 3) && ((((msb
            & 0b100) >> 2) << 1) | ((lsb & 0b100) >> 2)) == ((six_even_of(msb, lsb) >> 2) & 3) && ((
        (msb & 0b10000) >> 3) | ((lsb & 0b10000) >> 4)) == ((six_even_of(msb, lsb) >> 4) & 3))
            by (bit_vector);
        assert(((msb & 0b10) | ((lsb & 0b10) >> 1)) == (six_odd_of(msb, lsb) & 3) && (((msb
            & 0b1000) >> 2) | ((lsb & 0b1000) >> 3)) == ((six_odd_of(msb, lsb) >> 2) & 3) && (((msb
            & 0b100000) >> 4) | ((lsb & 0b100000) >> 5)) == ((six_odd_of(msb, lsb) >> 4) & 3))
            by (bit_vector);
    }
    let p0 = RgbPixel {
        red: (p0_red << 6) as i32,
        green: (p0_green << 6) as i32,
        blue: (p0_blue << 6) as i32,
    };
    let p1 = RgbPixel {
        red: (p1_red << 6) as i32,
        green: (p1_green << 6) as i32,
        blue: (p1_blue << 6) as i32,
    };
    (p0, p1)
}

/// Decode an encoded frame back into a 240x320 raster of 8-bit pixels.
pub fn unformat_image(formatted: &Vec<u8>) -> (r: Vec<RgbPixel>)
    requires
        formatted@.len() == 76800,
    ensures
        r@ == unformat_spec(formatted@),
        r@.len() == 76800,
{
    let mut img: Vec<RgbPixel> = vec![RgbPixel { red: 0, green: 0, blue: 0 }; 76800];
    let mut y: usize = 0;
    while y < 320
        invariant
            formatted@.len() == 76800,
            img@.len() == 76800,
            y <= 320,
            forall|j: int| 0 <= j < 240 * y ==> img@[j] == unformat_spec(formatted@)[j],
        decreases 320 - y,
    {
        let mut i: usize = 0;
        while i < 120
            invariant
                formatted@.len() == 76800,
                img@.len() == 76800,
                y < 320,
                i <= 120,
                forall|j: int| 0 <= j < 240 * y + 2 * i ==> img@[j] == unformat_spec(formatted@)[j],
            decreases 120 - i,
        {
            let msb = formatted[y * 240 + i];
            let lsb = formatted[y * 240 + i + 120];
            let pair = unpack_pair(msb, lsb);
            img[y * 240 + 2 * i] = pair.0;
            img[y * 240 + 2 * i + 1] = pair.1;
            proof {
                lemma_rc(y as int, 2 * i as int);
                lemma_rc(y as int, 2 * i as int + 1);
            }
            i = i + 1;
        }
        y = y + 1;
    }
    proof {
        assert(img@ =~= unformat_spec(formatted@));
    }
    img
}

/// Reassemble the two 6-bit `0bBBGGRR` values sharing one byte pair.
fn unpack_pair_raw(msb: u8, lsb: u8) -> (r: (u8, u8))
    ensures
        r.0 == six_even_of(msb, lsb),
        r.1 == six_odd_of(msb, lsb),
{
    let p0_red: u8 = ((msb & 0b1) << 1) | (lsb & 0b1);
    let p0_green: u8 = (((msb & 0b100) >> 2) << 1) | ((lsb & 0b100) >> 2);
    let p0_blue: u8 = ((msb & 0b10000) >> 3) | ((lsb & 0b10000) >> 4);

    let p1_red: u8 = (msb & 0b10) | ((lsb & 0b10) >> 1);
    let p1_green: u8 = ((msb & 0b1000) >> 2) | ((lsb & 0b1000) >> 3);
    let p1_blue: u8 = ((msb & 0b100000) >> 4) | ((lsb & 0b100000) >> 5);

    proof {
        assert(((((msb & 0b10000) >> 3) | ((lsb & 0b10000) >> 4)) << 4) | (((((msb & 0b100) >> 2)
            << 1) | ((lsb & 0b100) >> 2)) << 2) | (((msb & 0b1) << 1) | (lsb & 0b1))
            == six_even_of(msb, lsb)) by (bit_vector);
        assert(((((msb & 0b100000) >> 4) | ((lsb & 0b100000) >> 5)) << 4) | ((((msb & 0b1000) >> 2)
            | ((lsb & 0b1000) >> 3)) << 2) | ((msb & 0b10) | ((lsb & 0b10) >> 1))
            == six_odd_of(msb, lsb)) by (bit_vector);
    }
    ((p0_blue << 4) | (p0_green << 2) | p0_red, (p1_blue << 4) | (p1_green << 2) | p1_red)
}

/// Decode an encoded frame into the plain raw form: one 6-bit `0bBBGGRR`
/// byte per pixel, row-major.
pub fn unformat_image_raw(formatted: &Vec<u8>) -> (r: Vec<u8>)
    requires
        formatted@.len() == 76800,
    ensures
        r@ == unformat_raw_spec(formatted@),
        r@.len() == 76800,
{
    let mut img: Vec<u8> = vec![0u8; 76800];
    let mut y: usize = 0;
    while y < 320
        invariant
            formatted@.len() == 76800,
            img@.len() == 76800,
            y <= 320,
            forall|j: int| 0 <= j < 240 * y ==> img@[j] == unformat_raw_spec(formatted@)[j],
        decreases 320 - y,
    {
        let mut i: usize = 0;
        while i < 120
            invariant
                formatted@.len() == 76800,
                img@.len() == 76800,
                y < 320,
                i <= 120,
                forall|j: int|
                    0 <= j < 240 * y + 2 * i ==> img@[j] == unformat_raw_spec(formatted@)[j],
            decreases 120 - i,
        {
            let msb = formatted[y * 240 + i];
            let lsb = formatted[y * 240 + i + 120];
            let pair = unpack_pair_raw(msb, lsb);
            img[y * 240 + 2 * i] = pair.0;
            img[y * 240 + 2 * i + 1] = pair.1;
            proof {
                lemma_rc(y as int, 2 * i as int);
                lemma_rc(y as int, 2 * i as int + 1);
            }
            i = i + 1;
        }
        y = y + 1;
    }
    proof {
        assert(img@ =~= unformat_raw_spec(formatted@));
    }
    img
}

/// The MSB lookup table: entry `64*i + j` holds the MSB byte of the
/// 6-bit pixel pair `(i, j)`.
pub open spec fn msb_lut_spec() -> Seq<u8> {
    Seq::new(4096, |k: int| msb_of((k / 64) as u8, (k % 64) as u8))
}

/// The LSB lookup table, laid out like the MSB table.
pub open spec fn lsb_lut_spec() -> Seq<u8> {
    Seq::new(4096, |k: int| lsb_of((k / 64) as u8, (k % 64) as u8))
}

/// Build the two 4096-entry lookup tables mapping a pair of 6-bit pixels
/// (first pixel in the high index bits) to its MSB and LSB bytes.
pub fn gen_luts() -> (r: (Vec<u8>, Vec<u8>))
    ensures
        r.0@ == msb_lut_spec(),
        r.1@ == lsb_lut_spec(),
{
    let mut msb_lut: Vec<u8> = vec![0u8; 4096];
    let mut lsb_lut: Vec<u8> = vec![0u8; 4096];
    let mut i: usize = 0;
    while i < 64
        invariant
            msb_lut@.len() == 4096,
            lsb_lut@.len() == 4096,
            i <= 64,
            forall|k: int|
                0 <= k < 64 * i ==> msb_lut@[k] == msb_lut_spec()[k] && lsb_lut@[k]
                    == lsb_lut_spec()[k],
        decreases 64 - i,
    {
        let mut j: usize = 0;
        while j < 64
            invariant
                msb_lut@.len() == 4096,
                lsb_lut@.len() == 4096,
                i < 64,
                j <= 64,
                forall|k: int|
                    0 <= k < 64 * i + j ==> msb_lut@[k] == msb_lut_spec()[k] && lsb_lut@[k]
                        == lsb_lut_spec()[k],
            decreases 64 - j,
        {
            let v = two_pixels_to_msb_lsb(i as u8, j as u8);
            msb_lut[i * 64 + j] = v.0;
            lsb_lut[i * 64 + j] = v.1;
            proof {
                vstd::arithmetic::div_mod::lemma_fundamental_div_mod_converse(
                    64 * (i as int) + (j as int),
                    64,
                    i as int,
                    j as int,
                );
            }
            j = j + 1;
        }
        i = i + 1;
    }
    proof {
        assert(msb_lut@ =~= msb_lut_spec());
        assert(lsb_lut@ =~= lsb_lut_spec());
    }
    (msb_lut, lsb_lut)
}

/// Whether a decoded image has the panel's fixed size. Both axes must
/// match: a wrong width or a wrong height each rejects the image.
pub fn dimensions_ok(width: u32, height: u32) -> (r: bool)
    ensures
        r == (width == 240 && height == 320),
{
    width == 240 && height == 320
}

/// An 8-bit channel that is an exact left-shifted 2-bit value: one of the
/// four levels the decoder can produce.
pub open spec fn shifted_2bit(v: int) -> bool {
    v == 0 || v == 64 || v == 128 || v == 192
}

/// A raster whose every channel is already 2-bit-quantized and
/// left-shifted by 6.
pub open spec fn quantized_raster(img: Seq<RgbPixel>) -> bool {
    forall|j: int|
        0 <= j < img.len() ==> shifted_2bit(#[trigger] img[j].red as int) && shifted_2bit(
            img[j].green as int,
        ) && shifted_2bit(img[j].blue as int)
}

/// Packing a pixel whose channels are already shift-quantized into its
/// 6-bit byte and unpacking it again is the identity.
proof fn lemma_unpack_packed(p: RgbPixel)
    requires
        shifted_2bit(p.red as int),
        shifted_2bit(p.green as int),
        shifted_2bit(p.blue as int),
    ensures
        unpacked_pixel(packed_six(p)) == p,
{
    crate::pixel::lemma_six_of_bounds(p);
    let s: u8 = packed_six(p);
    let r2: u8 = (p.red as int / 64) as u8;
    let g2: u8 = (p.green as int / 64) as u8;
    let b2: u8 = (p.blue as int / 64) as u8;
    assert(s == 16 * b2 + 4 * g2 + r2 && r2 < 4 && g2 < 4 && b2 < 4);
    assert((s == 16 * b2 + 4 * g2 + r2 && r2 < 4 && g2 < 4 && b2 < 4) ==> ((s & 3) << 6) == 64
        * r2 && (((s >> 2) & 3) << 6) == 64 * g2 && (((s >> 4) & 3) << 6) == 64 * b2)
        by (bit_vector);
}

/// Round trip: encoding a raster whose channels are already in
/// {0, 64, 128, 192} and decoding the frame again reproduces it exactly.
pub proof fn lemma_format_unformat_roundtrip(img: Seq<RgbPixel>)
    requires
        img.len() == 76800,
        quantized_raster(img),
    ensures
        unformat_spec(format_spec(img)) == img,
{
    assert forall|j: int| 0 <= j < 76800 implies unformat_spec(format_spec(img))[j] == img[j] by {
        let y = j / 240;
        let x = j % 240;
        let i = x / 2;
        vstd::arithmetic::div_mod::lemma_div_pos_is_pos(j, 240);
        vstd::arithmetic::div_mod::lemma_div_is_ordered(j, 76799, 240);
        assert(76799int / 240 == 319);
        vstd::arithmetic::div_mod::lemma_mod_bound(j, 240);
        vstd::arithmetic::div_mod::lemma_div_pos_is_pos(x, 2);
        vstd::arithmetic::div_mod::lemma_div_is_ordered(x, 239, 2);
        assert(239int / 2 == 119);
        vstd::arithmetic::div_mod::lemma_fundamental_div_mod(x, 2);
        vstd::arithmetic::div_mod::lemma_mod_bound(x, 2);
        vstd::arithmetic::div_mod::lemma_fundamental_div_mod(j, 240);
        lemma_rc(y, i);
        lemma_rc(y, i + 120);
        let p_even = img[240 * y + 2 * i];
        let p_odd = img[240 * y + 2 * i + 1];
        crate::pixel::lemma_six_of_bounds(p_even);
        crate::pixel::lemma_six_of_bounds(p_odd);
        lemma_pair_roundtrip(packed_six(p_even), packed_six(p_odd));
        lemma_unpack_packed(p_even);
        lemma_unpack_packed(p_odd);
    }
    assert(unformat_spec(format_spec(img)) =~= img);
}

/// Whatever frame is decoded, every channel of the result is one of the
/// four shift-based levels {0, 64, 128, 192}.
pub proof fn lemma_unformat_channels(frame: Seq<u8>)
    requires
        frame.len() == 76800,
    ensures
        quantized_raster(unformat_spec(frame)),
{
    assert forall|j: int| 0 <= j < unformat_spec(frame).len() implies shifted_2bit(
        #[trigger] unformat_spec(frame)[j].red as int,
    ) && shifted_2bit(unformat_spec(frame)[j].green as int) && shifted_2bit(
        unformat_spec(frame)[j].blue as int,
    ) by {
        let y = j / 240;
        let x = j % 240;
        vstd::arithmetic::div_mod::lemma_div_pos_is_pos(j, 240);
        vstd::arithmetic::div_mod::lemma_div_is_ordered(j, 76799, 240);
        assert(76799int / 240 == 319);
        vstd::arithmetic::div_mod::lemma_mod_bound(j, 240);
        let a: u8 = frame[240 * y + x / 2];
        let b: u8 = frame[240 * y + x / 2 + 120];
        assert(((six_even_of(a, b) & 3) << 6) == 0 || ((six_even_of(a, b) & 3) << 6) == 64 || ((
        six_even_of(a, b) & 3) << 6) == 128 || ((six_even_of(a, b) & 3) << 6) == 192)
            by (bit_vector);
        assert((((six_even_of(a, b) >> 2) & 3) << 6) == 0 || (((six_even_of(a, b) >> 2) & 3) << 6)
            == 64 || (((six_even_of(a, b) >> 2) & 3) << 6) == 128 || (((six_even_of(a, b) >> 2)
            & 3) << 6) == 192) by (bit_vector);
        assert((((six_even_of(a, b) >> 4) & 3) << 6) == 0 || (((six_even_of(a, b) >> 4) & 3) << 6)
            == 64 || (((six_even_of(a, b) >> 4) & 3) << 6) == 128 || (((six_even_of(a, b) >> 4)
            & 3) << 6) == 192) by (bit_vector);
        assert(((six_odd_of(a, b) & 3) << 6) == 0 || ((six_odd_of(a, b) & 3) << 6) == 64 || ((
        six_odd_of(a, b) & 3) << 6) == 128 || ((six_odd_of(a, b) & 3) << 6) == 192)
            by (bit_vector);
        assert((((six_odd_of(a, b) >> 2) & 3) << 6) == 0 || (((six_odd_of(a, b) >> 2) & 3) << 6)
            == 64 || (((six_odd_of(a, b) >> 2) & 3) << 6) == 128 || (((six_odd_of(a, b) >> 2) & 3)
            << 6) == 192) by (bit_vector);
        assert((((six_odd_of(a, b) >> 4) & 3) << 6) == 0 || (((six_odd_of(a, b) >> 4) & 3) << 6)
            == 64 || (((six_odd_of(a, b) >> 4) & 3) << 6) == 128 || (((six_odd_of(a, b) >> 4) & 3)
            << 6) == 192) by (bit_vector);
    }
}

} // verus!
