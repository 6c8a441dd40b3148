use sharpie::VDP;

/// A fresh VDP is fully zeroed with no scroll.
#[test]
fn new_vdp_is_zeroed() {
    let vdp = VDP::new();
    assert_eq!(vdp.vram.len(), 98304);
    assert!(vdp.vram.iter().all(|&b| b == 0));
    assert_eq!(vdp.tilemap_0_scroll_x, 0);
    assert_eq!(vdp.tilemap_0_scroll_y, 0);
    assert_eq!(vdp.tilemap_0_contents.len(), 64);
    assert!(vdp.tilemap_0_contents.iter().all(|row| row.len() == 64 && row.iter().all(|&t| t == 0)));
}

/// VRAM pixels expand to shift-based RGBA, with bit 6 as transparency.
#[test]
fn pixel_expansion() {
    assert_eq!(VDP::px_to_rgba(0b000011), (192, 0, 0, 255));
    assert_eq!(VDP::px_to_rgba(0b001100), (0, 192, 0, 255));
    assert_eq!(VDP::px_to_rgba(0b110000), (0, 0, 192, 255));
    assert_eq!(VDP::px_to_rgba(0b1000000), (0, 0, 0, 0));
    assert_eq!(VDP::px_to_rgba(0), (0, 0, 0, 255));
}

/// The test pattern fills whole pixels and leaves a trailing fragment.
#[test]
fn render2_paints_solid_pattern() {
    let vdp = VDP::new();
    let mut fb = vec![7u8; 10];
    vdp.render2(&mut fb);
    assert_eq!(fb, vec![0xab, 0x00, 0xab, 0xff, 0xab, 0x00, 0xab, 0xff, 7, 7]);
}

/// Rendering a zeroed VDP paints every framebuffer pixel opaque black.
#[test]
fn render_zeroed_vdp() {
    let vdp = VDP::new();
    let mut fb = vec![9u8; 307200];
    vdp.render(&mut fb);
    for chunk in fb.chunks(4) {
        assert_eq!(chunk, &[0, 0, 0, 255]);
    }
}

/// Rendering with a scroll offset starts inside the scrolled tile: with
/// scroll (4, 1) the first framebuffer pixel comes from tile 0's pixel at
/// column 4, row 1.
#[test]
fn render_honors_scroll() {
    let mut vdp = VDP::new();
    for i in 0..64usize {
        vdp.vram[i] = i as u8;
    }
    vdp.tilemap_0_scroll_x = 4;
    vdp.tilemap_0_scroll_y = 1;
    let mut fb = vec![0u8; 307200];
    vdp.render(&mut fb);
    // vram[1*8 + 4] = 12 = 0b001100: green 192, opaque
    assert_eq!(&fb[0..4], &[0, 192, 0, 255]);
    // next pixel to the right: vram[13] = 0b001101: red 64, green 192
    assert_eq!(&fb[4..8], &[64, 192, 0, 255]);
}

/// A framebuffer longer than the display is written only in its first
/// 307200 bytes; the tail is untouched.
#[test]
fn render_leaves_tail_untouched() {
    let vdp = VDP::new();
    let mut fb = vec![9u8; 307210];
    vdp.render(&mut fb);
    assert_eq!(&fb[0..4], &[0, 0, 0, 255]);
    assert_eq!(&fb[307200..], &[9u8; 10]);
}

/// The largest panic-free vertical scroll: the row-end fetch after the
/// last display row still lands inside the 64-row tile map.
#[test]
fn render_at_maximum_vertical_scroll() {
    let mut vdp = VDP::new();
    vdp.tilemap_0_scroll_y = 271;
    let mut fb = vec![0u8; 307200];
    vdp.render(&mut fb);
    assert_eq!(&fb[0..4], &[0, 0, 0, 255]);
}
