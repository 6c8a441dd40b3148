use sharpie::{
    consumer_step, frame_from_rgba_bytes, frame_payload, process_frame, run_session,
    ConsumerAction, RgbPixel,
};

fn px(r: i32, g: i32, b: i32) -> RgbPixel {
    RgbPixel { red: r, green: g, blue: b }
}

fn solid_frame(v: i32) -> Vec<RgbPixel> {
    vec![px(v, v, v); 76800]
}

fn prefix_of(payload: &[u8]) -> u32 {
    u32::from_le_bytes([payload[0], payload[1], payload[2], payload[3]])
}

/// The framing writes the payload length as 4 little-endian bytes.
#[test]
fn frame_payload_length_prefix() {
    let framed = frame_payload(vec![9, 8, 7]);
    assert_eq!(framed, vec![3, 0, 0, 0, 9, 8, 7]);
    let big = frame_payload(vec![0; 0x1_02_03]);
    assert_eq!(&big[0..4], &[0x03, 0x02, 0x01, 0x00]);
}

/// One frame becomes one framed transfer whose declared length equals the
/// compressed payload that follows it, and compression really shrank the
/// repetitive frame rather than passing it through.
#[test]
fn process_frame_prefix_matches_payload() {
    let out = process_frame(&solid_frame(128), 6).expect("compression failed");
    assert_eq!(prefix_of(&out) as usize, out.len() - 4);
    assert!(out.len() - 4 < 76800, "compressor must not hand the frame back unchanged");
}

/// Streaming: three submitted frames give exactly three transfers, in
/// submission order, each correctly length-prefixed; a closed producer
/// stops the consumer without another transfer.
#[test]
fn three_frames_stream_in_order() {
    let frames = vec![solid_frame(0), solid_frame(128), solid_frame(255)];
    let expected: Vec<Vec<u8>> =
        frames.iter().map(|f| process_frame(f, 6).unwrap()).collect();

    let mut sent: Vec<Vec<u8>> = Vec::new();
    for f in &frames {
        match consumer_step(Some(f.clone()), 6) {
            ConsumerAction::Transmit(payload) => {
                assert_eq!(prefix_of(&payload) as usize, payload.len() - 4);
                sent.push(payload);
            }
            _ => panic!("a received frame must be transmitted"),
        }
    }
    assert_eq!(sent.len(), 3);
    assert_eq!(sent, expected);

    match consumer_step(None, 6) {
        ConsumerAction::Stop => {}
        _ => panic!("a disconnected producer must stop the consumer"),
    }
}

/// The session runner transmits every frame once, in order.
#[test]
fn session_keeps_count_and_order() {
    let frames = vec![solid_frame(10), solid_frame(200), solid_frame(77)];
    let out = run_session(&frames, 6).expect("session failed");
    assert_eq!(out.len(), 3);
    for (f, payload) in frames.iter().zip(out.iter()) {
        assert_eq!(payload, &process_frame(f, 6).unwrap());
    }
    // distinct frames give distinct transfers, so order is observable
    assert_ne!(out[0], out[1]);
    assert_ne!(out[1], out[2]);
}

/// An empty submission run is a successful, empty session.
#[test]
fn empty_session_succeeds() {
    let out = run_session(&Vec::new(), 6).expect("empty session failed");
    assert!(out.is_empty());
}

/// An out-of-range compression level is clamped by the compressor, not
/// rejected: the frame is still transmitted.
#[test]
fn extreme_level_still_transmits() {
    let out = process_frame(&solid_frame(90), 1000).expect("clamped level failed");
    assert_eq!(prefix_of(&out) as usize, out.len() - 4);
}

/// RGBA byte streams unpack four bytes per pixel, dropping alpha.
#[test]
fn rgba_bytes_unpack() {
    let data = vec![1, 2, 3, 255, 200, 100, 50, 0];
    let pixels = frame_from_rgba_bytes(&data);
    assert_eq!(pixels, vec![px(1, 2, 3), px(200, 100, 50)]);
}
