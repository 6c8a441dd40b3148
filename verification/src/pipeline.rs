//! Compute side of the streaming pipeline: each raw frame is diffused,
//! packed by the codec, compressed, and framed with a 4-byte little-endian
//! length prefix. The blocking transport write and the thread that drives
//! this loop live outside the library; the consumer's decisions are the
//! verified functions here.

use vstd::prelude::*;
use crate::codec::{format_image, format_spec};
use crate::dither::{dither_spec, floyd_steinberg_dither};
use crate::pixel::RgbPixel;

verus! {

/// The bytes zstd produces for the given input at the given compression
/// level. The output is a function of the two arguments alone.
pub uninterp spec fn zstd_of(data: Seq<u8>, level: int) -> Seq<u8>;

/// Relies on zstd::stream::encode_all: single-shot compression of a byte
/// stream into one zstd frame, deterministic in the input bytes and the
/// level. The call succeeds on every input: an out-of-range level is
/// clamped into bounds rather than rejected, no dictionary is loaded, and
/// the output is written into a `Vec`, whose writer never fails; only
/// allocation failure remains, which aborts rather than returns.
#[verifier::external_body]
fn zstd_compress(data: &Vec<u8>, level: i32) -> (r: Option<Vec<u8>>)
    ensures
        r is Some,
        r matches Some(v) ==> v@ == zstd_of(data@, level as int),
{
    match zstd::encode_all(&data[..], level) {
        Ok(v) => Some(v),
        Err(_) => None,
    }
}

/// A length as 4 little-endian bytes.
pub open spec fn le32(n: int) -> Seq<u8> {
    seq![
        (n % 256) as u8,
        ((n / 256) % 256) as u8,
        ((n / 65536) % 256) as u8,
        ((n / 16777216) % 256) as u8,
    ]
}

/// A transport payload: the compressed bytes behind their 4-byte
/// little-endian length prefix.
pub open spec fn framed(payload: Seq<u8>) -> Seq<u8> {
    le32(payload.len() as int) + payload
}

/// The 4 little-endian bytes of a 32-bit length.
fn le32_bytes(n: u32) -> (r: Vec<u8>)
    ensures
        r@ == le32(n as int),
{
    proof {
        assert((n & 0xff) == n % 256 && ((n >> 8) & 0xff) == (n / 256) % 256 && ((n >> 16) & 0xff)
            == (n / 65536) % 256 && ((n >> 24) & 0xff) == (n / 16777216) % 256) by (bit_vector);
    }
    let r: Vec<u8> = vec![
        (n & 0xff) as u8,
        ((n >> 8) & 0xff) as u8,
        ((n >> 16) & 0xff) as u8,
        ((n >> 24) & 0xff) as u8,
    ];
    proof {
        assert(r@ =~= le32(n as int));
    }
    r
}

/// Frame a compressed payload for the transport: its length as a 4-byte
/// little-endian prefix, then the payload itself.
pub fn frame_payload(payload: Vec<u8>) -> (r: Vec<u8>)
    requires
        payload@.len() <= u32::MAX,
    ensures
        r@ == framed(payload@),
        r@.len() == payload@.len() + 4,
{
    let mut r = le32_bytes(payload.len() as u32);
    let mut p = payload;
    r.append(&mut p);
    r
}

/// Turn one raw 240x320 frame into its transport payload: diffuse, pack,
/// compress at the given level, and length-prefix. The payload is owed
/// whenever the compressed bytes fit behind a 32-bit length prefix;
/// `None` happens exactly when they do not.
pub fn process_frame(frame: &Vec<RgbPixel>, level: i32) -> (r: Option<Vec<u8>>)
    requires
        frame@.len() == 76800,
        forall|k: int| 0 <= k < 76800 ==> (#[trigger] frame@[k]).in_range(),
    ensures
        r matches Some(v) ==> v@ == framed(
            zstd_of(format_spec(dither_spec(frame@, 240, 320)), level as int),
        ),
        zstd_of(format_spec(dither_spec(frame@, 240, 320)), level as int).len() <= u32::MAX
            ==> r is Some,
        r is None ==> zstd_of(format_spec(dither_spec(frame@, 240, 320)), level as int).len()
            > u32::MAX,
{
    let dithered = floyd_steinberg_dither(frame, 240, 320);
    let encoded = format_image(&dithered);
    match zstd_compress(&encoded, level) {
        Option::None => Option::None,
        Option::Some(compressed) => {
            if compressed.len() as u64 <= u32::MAX as u64 {
                Option::Some(frame_payload(compressed))
            } else {
                Option::None
            }
        },
    }
}

/// What the consumer does next: send one framed payload, give up on a
/// fatal error, or leave the loop.
pub enum ConsumerAction {
    Transmit(Vec<u8>),
    Fatal,
    Stop,
}

/// One turn of the consumer loop. A received frame becomes exactly one
/// transmission, owed whenever its compressed form fits behind the length
/// prefix (a fatal error otherwise); a disconnected producer, and nothing
/// else, stops the loop.
pub fn consumer_step(event: Option<Vec<RgbPixel>>, level: i32) -> (r: ConsumerAction)
    requires
        event matches Some(f) ==> f@.len() == 76800 && forall|k: int|
            0 <= k < 76800 ==> (#[trigger] f@[k]).in_range(),
    ensures
        event is None <==> r is Stop,
        event matches Some(f) ==> (r matches ConsumerAction::Transmit(v) ==> v@ == framed(
            zstd_of(format_spec(dither_spec(f@, 240, 320)), level as int),
        )),
        event matches Some(f) ==> (zstd_of(
            format_spec(dither_spec(f@, 240, 320)),
            level as int,
        ).len() <= u32::MAX ==> r is Transmit),
{
    match event {
        Option::None => ConsumerAction::Stop,
        Option::Some(frame) => {
            match process_frame(&frame, level) {
                Option::Some(payload) => ConsumerAction::Transmit(payload),
                Option::None => ConsumerAction::Fatal,
            }
        },
    }
}

/// A whole session over a finite run of frames: every frame is processed,
/// none is dropped, duplicated, or reordered, and the transfers are owed
/// whenever every frame's compressed form fits behind its length prefix.
/// `None` reports the first frame whose payload does not.
pub fn run_session(frames: &Vec<Vec<RgbPixel>>, level: i32) -> (r: Option<Vec<Vec<u8>>>)
    requires
        forall|i: int|
            0 <= i < frames@.len() ==> (#[trigger] frames@[i])@.len() == 76800 && forall|k: int|
                0 <= k < 76800 ==> (#[trigger] frames@[i]@[k]).in_range(),
    ensures
        r matches Some(out) ==> out@.len() == frames@.len() && forall|i: int|
            0 <= i < frames@.len() ==> (#[trigger] out@[i])@ == framed(
                zstd_of(format_spec(dither_spec(frames@[i]@, 240, 320)), level as int),
            ),
        (forall|i: int|
            0 <= i < frames@.len() ==> #[trigger] zstd_of(
                format_spec(dither_spec(frames@[i]@, 240, 320)),
                level as int,
            ).len() <= u32::MAX) ==> r is Some,
{
    let mut out: Vec<Vec<u8>> = Vec::new();
    let mut i: usize = 0;
    while i < frames.len()
        invariant
            forall|i: int|
                0 <= i < frames@.len() ==> (#[trigger] frames@[i])@.len() == 76800 && forall|k: int|
                    0 <= k < 76800 ==> (#[trigger] frames@[i]@[k]).in_range(),
            i <= frames@.len(),
            out@.len() == i,
            forall|j: int|
                0 <= j < i ==> (#[trigger] out@[j])@ == framed(
                    zstd_of(format_spec(dither_spec(frames@[j]@, 240, 320)), level as int),
                ),
        decreases frames@.len() - i,
    {
        match process_frame(&frames[i], level) {
            Option::Some(payload) => {
                out.push(payload);
            },
            Option::None => {
                return Option::None;
            },
        }
        i = i + 1;
    }
    Option::Some(out)
}

/// Unpack a flat RGBA byte stream (4 bytes per pixel, alpha dropped) into
/// a raster of pixels.
pub fn frame_from_rgba_bytes(data: &Vec<u8>) -> (r: Vec<RgbPixel>)
    requires
        data@.len() % 4 == 0,
    ensures
        r@.len() == data@.len() / 4,
        forall|i: int|
            0 <= i < r@.len() ==> #[trigger] r@[i] == (RgbPixel {
                red: data@[4 * i] as i32,
                green: data@[4 * i + 1] as i32,
                blue: data@[4 * i + 2] as i32,
            }),
        forall|i: int| 0 <= i < r@.len() ==> (#[trigger] r@[i]).in_range(),
{
    let mut r: Vec<RgbPixel> = Vec::new();
    let len: usize = data.len();
    let mut i: usize = 0;
    while 4 * i < len
        invariant
            data@.len() % 4 == 0,
            len == data@.len(),
            4 * i <= data@.len(),
            r@.len() == i,
            forall|j: int|
                0 <= j < i ==> #[trigger] r@[j] == (RgbPixel {
                    red: data@[4 * j] as i32,
                    green: data@[4 * j + 1] as i32,
                    blue: data@[4 * j + 2] as i32,
                }),
        decreases len - 4 * i,
    {
        let px = RgbPixel::from_rgba_u8s(data[4 * i], data[4 * i + 1], data[4 * i + 2], data[4 * i
            + 3]);
        r.push(px);
        i = i + 1;
    }
    r
}

} // verus!
