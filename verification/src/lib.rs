//! Verified core of a 6-bit-color memory-LCD display pipeline: a color
//! quantizer, a Floyd-Steinberg error diffuser, a split-plane frame codec,
//! the compute side of a compressed streaming transport, and a small
//! simulated tile-based display processor.

pub mod codec;
pub mod dither;
pub mod pipeline;
pub mod pixel;
pub mod quantizer;
pub mod vdp;

pub use codec::{
    dimensions_ok, format_image, gen_luts, two_pixels_to_msb_lsb, unformat_image,
    unformat_image_raw,
};
pub use dither::{floyd_steinberg_dither, rgb8_quant_error};
pub use pipeline::{
    consumer_step, frame_from_rgba_bytes, frame_payload, process_frame, run_session,
    ConsumerAction,
};
pub use pixel::RgbPixel;
pub use quantizer::{color_2bit_to_8bit, rgb8_to_2bpc_pixel};
pub use vdp::{TilemapMode, VDP};
