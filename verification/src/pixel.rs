//! The raster pixel type: three 8-bit-range channel samples held in `i32`
//! fields so that error arithmetic can never overflow.

use vstd::prelude::*;
use crate::quantizer::{expand_level, reduce_level};

verus! {

/// One RGB pixel. Channels are linear intensity samples in [0, 255];
/// the wide fields leave room for intermediate signed arithmetic.
#[derive(Clone, Copy, Debug, PartialEq, Eq, Structural)]
pub struct RgbPixel {
    pub red: i32,
    pub green: i32,
    pub blue: i32,
}

/// The 6-bit `0bBBGGRR` value a pixel truncates to.
pub open spec fn six_of(p: RgbPixel) -> int {
    16 * reduce_level(p.blue as int) + 4 * reduce_level(p.green as int) + reduce_level(
        p.red as int,
    )
}

impl RgbPixel {
    /// Every channel holds an 8-bit sample.
    pub open spec fn in_range(self) -> bool {
        &&& 0 <= self.red <= 255
        &&& 0 <= self.green <= 255
        &&& 0 <= self.blue <= 255
    }

    /// The pixel this one quantizes to: each channel truncated to 2 bits,
    /// then re-expanded through the fixed table.
    pub open spec fn quantized(self) -> RgbPixel {
        RgbPixel {
            red: expand_level(reduce_level(self.red as int)) as i32,
            green: expand_level(reduce_level(self.green as int)) as i32,
            blue: expand_level(reduce_level(self.blue as int)) as i32,
        }
    }

    /// The all-black pixel.
    pub fn new() -> (r: RgbPixel)
        ensures
            r == (RgbPixel { red: 0, green: 0, blue: 0 }),
    {
        RgbPixel { red: 0, green: 0, blue: 0 }
    }

    /// Unpack a pixel from a `u32` in ABGR order (alpha ignored).
    pub fn from_abgr32_pixel(p: u32) -> (r: RgbPixel)
        ensures
            r.red == (p & 0xff) as i32,
            r.green == ((p >> 8) & 0xff) as i32,
            r.blue == ((p >> 16) & 0xff) as i32,
            r.in_range(),
    {
        proof {
            assert((p & 0xff) < 256 && ((p >> 8) & 0xff) < 256 && ((p >> 16) & 0xff) < 256)
                by (bit_vector);
        }
        RgbPixel {
            red: (p & 0xff) as i32,
            green: ((p >> 8) & 0xff) as i32,
            blue: ((p >> 16) & 0xff) as i32,
        }
    }

    /// Build a pixel from RGBA byte samples; the alpha channel is dropped.
    pub fn from_rgba_u8s(r: u8, g: u8, b: u8, _a: u8) -> (p: RgbPixel)
        ensures
            p.red == r as i32,
            p.green == g as i32,
            p.blue == b as i32,
            p.in_range(),
    {
        RgbPixel { red: r as i32, green: g as i32, blue: b as i32 }
    }

    /// Reduce this pixel to 2 bits per channel, in RGB order.
    pub fn to_2bpc_color_array(&self) -> (r: [u8; 3])
        requires
            self.in_range(),
        ensures
            r@[0] == reduce_level(self.red as int),
            r@[1] == reduce_level(self.green as int),
            r@[2] == reduce_level(self.blue as int),
    {
        proof {
            let a = self.red;
            let b = self.green;
            let c = self.blue;
            assert((0 <= a < 256 && 0 <= b < 256 && 0 <= c < 256) ==> (a >> 6 == a / 64 && b >> 6
                == b / 64 && c >> 6 == c / 64)) by (bit_vector);
        }
        [(self.red >> 6) as u8, (self.green >> 6) as u8, (self.blue >> 6) as u8]
    }

    /// The 8-bit color a 2-bit color level stands for.
    pub fn color_2bpc_to_8bpc(color_2bit: u8) -> (r: i32)
        ensures
            r == expand_level(color_2bit as int),
    {
        match color_2bit {
            0b00 => 0,
            0b01 => 85,
            0b10 => 170,
            _ => 255,
        }
    }

    /// Quantize this pixel to 2 bits per channel, re-expanded to full range.
    pub fn to_2bpc_color_full_range(&self) -> (r: RgbPixel)
        requires
            self.in_range(),
        ensures
            r == self.quantized(),
            r.in_range(),
    {
        let this_pixel_2bpc = self.to_2bpc_color_array();
        RgbPixel {
            red: RgbPixel::color_2bpc_to_8bpc(this_pixel_2bpc[0]),
            green: RgbPixel::color_2bpc_to_8bpc(this_pixel_2bpc[1]),
            blue: RgbPixel::color_2bpc_to_8bpc(this_pixel_2bpc[2]),
        }
    }

    /// Pack this pixel into a single `0bBBGGRR` byte.
    pub fn to_6bpp_pixel(&self) -> (r: u8)
        requires
            self.in_range(),
        ensures
            r == six_of(*self),
            r < 64,
    {
        let px = self.to_2bpc_color_array();
        proof {
            let a = px@[0];
            let b = px@[1];
            let c = px@[2];
            assert((a < 4 && b < 4 && c < 4) ==> ((a | (b << 2) | (c << 4)) == a + 4 * b + 16 * c
                && (a | (b << 2) | (c << 4)) < 64)) by (bit_vector);
        }
        px[0] | (px[1] << 2) | (px[2] << 4)
    }

    /// The channels as plain bytes, in RGB order.
    pub fn to_u8_slice(&self) -> (r: [u8; 3])
        requires
            self.in_range(),
        ensures
            r@[0] == self.red,
            r@[1] == self.green,
            r@[2] == self.blue,
    {
        [self.red as u8, self.green as u8, self.blue as u8]
    }
}

/// A pixel with 8-bit channels packs into 6 bits.
pub proof fn lemma_six_of_bounds(p: RgbPixel)
    requires
        p.in_range(),
    ensures
        0 <= six_of(p) < 64,
{
    vstd::arithmetic::div_mod::lemma_div_pos_is_pos(p.red as int, 64);
    vstd::arithmetic::div_mod::lemma_div_pos_is_pos(p.green as int, 64);
    vstd::arithmetic::div_mod::lemma_div_pos_is_pos(p.blue as int, 64);
    vstd::arithmetic::div_mod::lemma_div_is_ordered(p.red as int, 255, 64);
    vstd::arithmetic::div_mod::lemma_div_is_ordered(p.green as int, 255, 64);
    vstd::arithmetic::div_mod::lemma_div_is_ordered(p.blue as int, 255, 64);
    assert(255int / 64 == 3);
}

} // verus!
