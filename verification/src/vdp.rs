//! Simulated tile-based video display processor: 96 KB of VRAM holding
//! 8x8 one-byte-per-pixel tiles, a 64x64 tile map, and a scrollable
//! 320x240 RGBA framebuffer renderer.

use vstd::prelude::*;

verus! {

/// The tile map's logical size.
pub enum TilemapMode {
    TilemapMode320x240,
    TilemapMode512x512,
}

/// The display processor's register and memory state.
pub struct VDP {
    pub vram: Vec<u8>,
    pub tilemap_0_mode: TilemapMode,
    pub tilemap_0_scroll_x: u32,
    pub tilemap_0_scroll_y: u32,
    pub tilemap_0_contents: Vec<Vec<u16>>,
}

/// The tile id stored at tile-map row `ty`, column `tx`.
pub open spec fn tilemap_at(v: VDP, ty: int, tx: int) -> u16 {
    v.tilemap_0_contents@[ty]@[tx]
}

/// The RGBA bytes of one VRAM pixel: 2-bit channels left-shifted to
/// 8 bits, and transparent when the pixel's bit 6 is set.
pub open spec fn px_to_rgba_spec(px: u8) -> (u8, u8, u8, u8) {
    (
        (px & 0b11) << 6,
        ((px & 0b1100) >> 2) << 6,
        ((px & 0b110000) >> 4) << 6,
        if px & 0b1000000 == 0 {
            0xff
        } else {
            0
        },
    )
}

/// The renderer's cursor between two pixels: the framebuffer written so
/// far, the current tile-map position, the fetched tile id, and the pixel
/// position inside that tile.
pub struct RenderState {
    pub fb: Seq<u8>,
    pub tile_x: int,
    pub tile_y: int,
    pub tile: u16,
    pub px: int,
    pub py: int,
}

/// Render one pixel at display row `r`, column `c`: copy the current
/// tile's pixel into the framebuffer, advance within the tile, and fetch
/// the next tile when the tile's right edge is crossed.
pub open spec fn render_px_spec(s: RenderState, v: VDP, r: int, c: int) -> RenderState {
    let pixel = v.vram@[s.tile as int * 64 + s.py * 8 + s.px];
    let rgba = px_to_rgba_spec(pixel);
    let off = (r * 320 + c) * 4;
    let fb = s.fb.update(off, rgba.0).update(off + 1, rgba.1).update(off + 2, rgba.2).update(
        off + 3,
        rgba.3,
    );
    if s.px + 1 == 8 {
        RenderState {
            fb,
            tile_x: s.tile_x + 1,
            tile_y: s.tile_y,
            tile: tilemap_at(v, s.tile_y, s.tile_x + 1),
            px: 0,
            py: s.py,
        }
    } else {
        RenderState { fb, tile_x: s.tile_x, tile_y: s.tile_y, tile: s.tile, px: s.px + 1, py: s.py }
    }
}

/// The state after the first `c` columns of display row `r`.
pub open spec fn render_cols_spec(s: RenderState, v: VDP, r: int, c: int) -> RenderState
    decreases c,
{
    if c <= 0 {
        s
    } else {
        render_px_spec(render_cols_spec(s, v, r, c - 1), v, r, c - 1)
    }
}

/// Step from the end of one display row to the start of the next: the
/// tile-map column restarts at 0, and crossing a tile's bottom edge
/// fetches the next tile-map row's first tile. The pixel column within
/// the tile carries over unchanged (the display is 320 pixels wide, a
/// whole number of tiles, so it re-aligns every row).
pub open spec fn render_row_end_spec(s: RenderState, v: VDP) -> RenderState {
    if s.py + 1 == 8 {
        RenderState {
            fb: s.fb,
            tile_x: 0,
            tile_y: s.tile_y + 1,
            tile: tilemap_at(v, s.tile_y + 1, 0),
            px: s.px,
            py: 0,
        }
    } else {
        RenderState {
            fb: s.fb,
            tile_x: 0,
            tile_y: s.tile_y,
            tile: s.tile,
            px: s.px,
            py: s.py + 1,
        }
    }
}

/// The state after `r` complete display rows.
pub open spec fn render_rows_spec(s: RenderState, v: VDP, r: int) -> RenderState
    decreases r,
{
    if r <= 0 {
        s
    } else {
        render_row_end_spec(render_cols_spec(render_rows_spec(s, v, r - 1), v, r - 1, 320), v)
    }
}

/// Where rendering starts: the tile under the display's upper-left
/// corner and the pixel offset into it given by the scroll registers.
pub open spec fn init_render_state(v: VDP, fb0: Seq<u8>) -> RenderState {
    RenderState {
        fb: fb0,
        tile_x: v.tilemap_0_scroll_x as int / 8,
        tile_y: v.tilemap_0_scroll_y as int / 8,
        tile: tilemap_at(
            v,
            v.tilemap_0_scroll_y as int / 8,
            v.tilemap_0_scroll_x as int / 8,
        ),
        px: v.tilemap_0_scroll_x as int % 8,
        py: v.tilemap_0_scroll_y as int % 8,
    }
}

/// The framebuffer a full 240-row render pass produces.
pub open spec fn render_spec(v: VDP, fb0: Seq<u8>) -> Seq<u8> {
    render_rows_spec(init_render_state(v, fb0), v, 240).fb
}

/// The byte at offset `k` of the solid test pattern `render2` paints.
pub open spec fn render2_byte(k: int) -> u8 {
    if k % 4 == 0 {
        0xab
    } else if k % 4 == 1 {
        0
    } else if k % 4 == 2 {
        0xab
    } else {
        0xff
    }
}

/// Rendering one pixel writes only below byte 307200 and keeps the
/// framebuffer's length.
proof fn lemma_render_px_writes_window(s: RenderState, v: VDP, r: int, c: int)
    requires
        0 <= r < 240,
        0 <= c < 320,
        s.fb.len() >= 307200,
    ensures
        render_px_spec(s, v, r, c).fb.len() == s.fb.len(),
        forall|k: int|
            307200 <= k < s.fb.len() ==> render_px_spec(s, v, r, c).fb[k] == s.fb[k],
{
}

/// A row's pixels write only below byte 307200.
proof fn lemma_render_cols_writes_window(s: RenderState, v: VDP, r: int, c: int)
    requires
        0 <= r < 240,
        0 <= c <= 320,
        s.fb.len() >= 307200,
    ensures
        render_cols_spec(s, v, r, c).fb.len() == s.fb.len(),
        forall|k: int|
            307200 <= k < s.fb.len() ==> render_cols_spec(s, v, r, c).fb[k] == s.fb[k],
    decreases c,
{
    if c > 0 {
        lemma_render_cols_writes_window(s, v, r, c - 1);
        lemma_render_px_writes_window(render_cols_spec(s, v, r, c - 1), v, r, c - 1);
    }
}

/// The whole render pass writes only the 307200 framebuffer bytes of the
/// 320x240 display; anything beyond them is untouched.
proof fn lemma_render_rows_writes_window(s: RenderState, v: VDP, r: int)
    requires
        0 <= r <= 240,
        s.fb.len() >= 307200,
    ensures
        render_rows_spec(s, v, r).fb.len() == s.fb.len(),
        forall|k: int| 307200 <= k < s.fb.len() ==> render_rows_spec(s, v, r).fb[k] == s.fb[k],
    decreases r,
{
    if r > 0 {
        lemma_render_rows_writes_window(s, v, r - 1);
        lemma_render_cols_writes_window(render_rows_spec(s, v, r - 1), v, r - 1, 320);
    }
}

impl VDP {
    /// A state the renderer can run on: full-size VRAM and tile map,
    /// every tile id inside VRAM, and scroll offsets small enough that
    /// every tile fetch of the scan stays inside the 64x64 tile map
    /// (horizontally the window plus one fetch-ahead tile, vertically the
    /// window's 240 rows plus one row-end fetch).
    pub open spec fn wf(self) -> bool {
        &&& self.vram@.len() == 98304
        &&& self.tilemap_0_contents@.len() == 64
        &&& forall|r: int| 0 <= r < 64 ==> (#[trigger] self.tilemap_0_contents@[r])@.len() == 64
        &&& forall|r: int, c: int|
            0 <= r < 64 && 0 <= c < 64 ==> (#[trigger] self.tilemap_0_contents@[r]@[c]) < 1536
        &&& self.tilemap_0_scroll_x <= 191
        &&& self.tilemap_0_scroll_y <= 271
    }

    /// Initialize a new simulated VDP: zeroed VRAM and tile map, no
    /// scroll, 320x240 tile-map mode.
    pub fn new() -> (r: Self)
        ensures
            r.wf(),
            r.vram@ == Seq::new(98304, |i: int| 0u8),
            r.tilemap_0_mode is TilemapMode320x240,
            r.tilemap_0_scroll_x == 0,
            r.tilemap_0_scroll_y == 0,
            forall|y: int, x: int| 0 <= y < 64 && 0 <= x < 64 ==> tilemap_at(r, y, x) == 0,
    {
        let vram: Vec<u8> = vec![0u8; 98304];
        let mut contents: Vec<Vec<u16>> = Vec::new();
        let mut y: usize = 0;
        while y < 64
            invariant
                y <= 64,
                contents@.len() == y,
                forall|r: int| 0 <= r < y ==> (#[trigger] contents@[r])@ == Seq::new(64, |i: int| 0u16),
            decreases 64 - y,
        {
            let row: Vec<u16> = vec![0u16; 64];
            proof {
                assert(row@ =~= Seq::new(64, |i: int| 0u16));
            }
            contents.push(row);
            y = y + 1;
        }
        proof {
            assert(vram@ =~= Seq::new(98304, |i: int| 0u8));
        }
        Self {
            vram,
            tilemap_0_mode: TilemapMode::TilemapMode320x240,
            tilemap_0_scroll_x: 0,
            tilemap_0_scroll_y: 0,
            tilemap_0_contents: contents,
        }
    }

    /// Expand a VRAM pixel to RGBA: 2-bit channels shifted to 8 bits,
    /// fully transparent when bit 6 is set, opaque otherwise.
    pub fn px_to_rgba(px: u8) -> (r: (u8, u8, u8, u8))
        ensures
            r == px_to_rgba_spec(px),
    {
        (
            (px & 0b11) << 6,
            ((px & 0b1100) >> 2) << 6,
            ((px & 0b110000) >> 4) << 6,
            if px & 0b1000000 == 0 {
                0xff
            } else {
                0
            },
        )
    }

    /// Render the visible 320x240 window of tile map 0 into an RGBA
    /// framebuffer, honoring the scroll registers. The tile-map column
    /// restarts at the map's left edge after the first display row, and a
    /// tile fetched at a row's end is kept until the next tile boundary,
    /// exactly as the scan-order recurrence in `render_spec` describes.
    pub fn render(&self, framebuffer: &mut Vec<u8>)
        requires
            self.wf(),
            old(framebuffer)@.len() >= 307200,
        ensures
            final(framebuffer)@ == render_spec(*self, old(framebuffer)@),
            final(framebuffer)@.len() == old(framebuffer)@.len(),
            forall|k: int|
                307200 <= k < old(framebuffer)@.len() ==> final(framebuffer)@[k] == old(
                    framebuffer,
                )@[k],
    {
        let ghost v = *self;
        let ghost fb0 = framebuffer@;

        let upper_left_tilemap_tile_x: u32 = self.tilemap_0_scroll_x / 8;
        let upper_left_tilemap_tile_y: u32 = self.tilemap_0_scroll_y / 8;
        let display_tile_pixel_offset_x: u32 = self.tilemap_0_scroll_x % 8;
        let display_tile_pixel_offset_y: u32 = self.tilemap_0_scroll_y % 8;

        proof {
            vstd::arithmetic::div_mod::lemma_fundamental_div_mod(
                self.tilemap_0_scroll_x as int,
                8,
            );
            vstd::arithmetic::div_mod::lemma_fundamental_div_mod(
                self.tilemap_0_scroll_y as int,
                8,
            );
            vstd::arithmetic::div_mod::lemma_div_is_ordered(
                self.tilemap_0_scroll_x as int,
                191,
                8,
            );
            vstd::arithmetic::div_mod::lemma_div_is_ordered(
                self.tilemap_0_scroll_y as int,
                271,
                8,
            );
            vstd::arithmetic::div_mod::lemma_div_pos_is_pos(self.tilemap_0_scroll_x as int, 8);
            vstd::arithmetic::div_mod::lemma_div_pos_is_pos(self.tilemap_0_scroll_y as int, 8);
            vstd::arithmetic::div_mod::lemma_mod_bound(self.tilemap_0_scroll_x as int, 8);
            vstd::arithmetic::div_mod::lemma_mod_bound(self.tilemap_0_scroll_y as int, 8);
            assert(191int / 8 == 23);
            assert(271int / 8 == 33);
        }
        let mut pixel_rows_rendered: u32 = 0;

        let mut current_tilemap_tile_x: u32 = upper_left_tilemap_tile_x;
        let mut current_tilemap_tile_y: u32 = upper_left_tilemap_tile_y;
        let mut current_tilemap_tile: u16 =
            self.tilemap_0_contents[current_tilemap_tile_y as usize][current_tilemap_tile_x
            as usize];

        let mut current_tile_pixel_x: u32 = display_tile_pixel_offset_x;
        let mut current_tile_pixel_y: u32 = display_tile_pixel_offset_y;
        while pixel_rows_rendered < 240
            invariant
                self.wf(),
                v == *self,
                fb0.len() >= 307200,
                framebuffer@.len() == fb0.len(),
                pixel_rows_rendered <= 240,
                ({
                    let s = render_rows_spec(
                        init_render_state(v, fb0),
                        v,
                        pixel_rows_rendered as int,
                    );
                    &&& framebuffer@ == s.fb
                    &&& current_tilemap_tile_x == s.tile_x
                    &&& current_tilemap_tile_y == s.tile_y
                    &&& current_tilemap_tile == s.tile
                    &&& current_tile_pixel_x == s.px
                    &&& current_tile_pixel_y == s.py
                }),
                current_tile_pixel_x < 8,
                current_tile_pixel_y < 8,
                8 * current_tilemap_tile_x + current_tile_pixel_x <= 191,
                8 * current_tilemap_tile_y + current_tile_pixel_y == self.tilemap_0_scroll_y
                    + pixel_rows_rendered,
                current_tilemap_tile < 1536,
            decreases 240 - pixel_rows_rendered,
        {
            let mut pixel_columns_rendered: u32 = 0;
            while pixel_columns_rendered < 320
                invariant
                    self.wf(),
                    v == *self,
                    fb0.len() >= 307200,
                    framebuffer@.len() == fb0.len(),
                    pixel_rows_rendered < 240,
                    pixel_columns_rendered <= 320,
                    ({
                        let s = render_cols_spec(
                            render_rows_spec(
                                init_render_state(v, fb0),
                                v,
                                pixel_rows_rendered as int,
                            ),
                            v,
                            pixel_rows_rendered as int,
                            pixel_columns_rendered as int,
                        );
                        &&& framebuffer@ == s.fb
                        &&& current_tilemap_tile_x == s.tile_x
                        &&& current_tilemap_tile_y == s.tile_y
                        &&& current_tilemap_tile == s.tile
                        &&& current_tile_pixel_x == s.px
                        &&& current_tile_pixel_y == s.py
                    }),
                    current_tile_pixel_x < 8,
                    current_tile_pixel_y < 8,
                    8 * current_tilemap_tile_x + current_tile_pixel_x <= 191
                        + pixel_columns_rendered,
                    8 * current_tilemap_tile_y + current_tile_pixel_y == self.tilemap_0_scroll_y
                        + pixel_rows_rendered,
                    current_tilemap_tile < 1536,
                decreases 320 - pixel_columns_rendered,
            {
                let ghost s_pre = render_cols_spec(
                    render_rows_spec(init_render_state(v, fb0), v, pixel_rows_rendered as int),
                    v,
                    pixel_rows_rendered as int,
                    pixel_columns_rendered as int,
                );
                let vram_offset: usize = current_tilemap_tile as usize * 64;
                let pixel: u8 = self.vram[vram_offset + (current_tile_pixel_y * 8
                    + current_tile_pixel_x) as usize];
                let rgba = VDP::px_to_rgba(pixel);

                let fb_offset: usize = (pixel_rows_rendered * 320 + pixel_columns_rendered)
                    as usize * 4;
                framebuffer[fb_offset] = rgba.0;
                framebuffer[fb_offset + 1] = rgba.1;
                framebuffer[fb_offset + 2] = rgba.2;
                framebuffer[fb_offset + 3] = rgba.3;

                current_tile_pixel_x = current_tile_pixel_x + 1;
                pixel_columns_rendered = pixel_columns_rendered + 1;
                if current_tile_pixel_x == 8 {
                    current_tile_pixel_x = 0;
                    current_tilemap_tile_x = current_tilemap_tile_x + 1;
                    current_tilemap_tile = self.tilemap_0_contents[current_tilemap_tile_y
                        as usize][current_tilemap_tile_x as usize];
                }
                proof {
                    let r: int = pixel_rows_rendered as int;
                    let c: int = pixel_columns_rendered as int - 1;
                    assert(render_cols_spec(
                        render_rows_spec(init_render_state(v, fb0), v, r),
                        v,
                        r,
                        c + 1,
                    ) == render_px_spec(s_pre, v, r, c));
                    assert(framebuffer@ =~= render_px_spec(s_pre, v, r, c).fb);
                }
            }
            let ghost s_row = render_cols_spec(
                render_rows_spec(init_render_state(v, fb0), v, pixel_rows_rendered as int),
                v,
                pixel_rows_rendered as int,
                320,
            );
            pixel_rows_rendered = pixel_rows_rendered + 1;
            current_tilemap_tile_x = 0;
            current_tile_pixel_y = current_tile_pixel_y + 1;
            if current_tile_pixel_y == 8 {
                current_tile_pixel_y = 0;
                current_tilemap_tile_y = current_tilemap_tile_y + 1;
                current_tilemap_tile = self.tilemap_0_contents[current_tilemap_tile_y
                    as usize][current_tilemap_tile_x as usize];
            }
            proof {
                assert(render_rows_spec(
                    init_render_state(v, fb0),
                    v,
                    pixel_rows_rendered as int,
                ) == render_row_end_spec(s_row, v));
            }
        }
        proof {
            lemma_render_rows_writes_window(init_render_state(v, fb0), v, 240);
        }
    }

    /// Paint the framebuffer's complete 4-byte pixels with a solid test
    /// color; a trailing partial pixel is left untouched.
    pub fn render2(&self, framebuffer: &mut Vec<u8>)
        ensures
            final(framebuffer)@.len() == old(framebuffer)@.len(),
            forall|k: int|
                0 <= k < 4 * (old(framebuffer)@.len() / 4) ==> final(framebuffer)@[k]
                    == render2_byte(k),
            forall|k: int|
                4 * (old(framebuffer)@.len() / 4) <= k < old(framebuffer)@.len()
                    ==> final(framebuffer)@[k] == old(framebuffer)@[k],
    {
        let len: usize = framebuffer.len();
        let full: usize = (len / 4) * 4;
        let mut i: usize = 0;
        while i < full
            invariant
                framebuffer@.len() == len,
                full == 4 * (len as int / 4),
                full <= len,
                i % 4 == 0,
                i <= full,
                forall|k: int| 0 <= k < i ==> #[trigger] framebuffer@[k] == render2_byte(k),
                forall|k: int| i <= k < len ==> #[trigger] framebuffer@[k] == old(framebuffer)@[k],
            decreases full - i,
        {
            framebuffer[i] = 0xab;
            framebuffer[i + 1] = 0x00;
            framebuffer[i + 2] = 0xab;
            framebuffer[i + 3] = 0xff;
            proof {
                vstd::arithmetic::div_mod::lemma_fundamental_div_mod(i as int, 4);
                vstd::arithmetic::div_mod::lemma_fundamental_div_mod_converse(
                    i as int,
                    4,
                    i as int / 4,
                    0,
                );
                vstd::arithmetic::div_mod::lemma_fundamental_div_mod_converse(
                    i as int + 1,
                    4,
                    i as int / 4,
                    1,
                );
                vstd::arithmetic::div_mod::lemma_fundamental_div_mod_converse(
                    i as int + 2,
                    4,
                    i as int / 4,
                    2,
                );
                vstd::arithmetic::div_mod::lemma_fundamental_div_mod_converse(
                    i as int + 3,
                    4,
                    i as int / 4,
                    3,
                );
            }
            i = i + 4;
        }
    }
}

} // verus!
