//! Pixel work of tileset textures: keying out a transparent color, and
//! copying image-collection tiles into their atlas rectangles.
use crate::live2d::pixel_byte;
use crate::tiled::error::is_unsupported_tileset;
use crate::tiled::error::TiledImportError;
use crate::tiled::layer::TiledTileset;
use crate::tilemap::types::TilesetTileRect;
use vstd::prelude::*;

verus! {

/// The RGB of pixel `p` of `pixels` is `color`.
pub open spec fn pixel_has_color(pixels: Seq<u8>, p: int, color: [u8; 3]) -> bool {
    &&& pixels[pixel_byte(p, 0)] == color[0]
    &&& pixels[pixel_byte(p, 1)] == color[1]
    &&& pixels[pixel_byte(p, 2)] == color[2]
}

/// `after` is `before` with every whole RGBA pixel of color `color` made
/// fully transparent; everything else keeps its bytes.
pub open spec fn is_color_keyed(before: Seq<u8>, after: Seq<u8>, color: [u8; 3]) -> bool {
    &&& after.len() == before.len()
    &&& forall|p: int, k: int|
        0 <= p < before.len() / 4 && 0 <= k < 3 ==> after[#[trigger] pixel_byte(p, k)]
            == before[pixel_byte(p, k)]
    &&& forall|p: int|
        0 <= p < before.len() / 4 ==> after[#[trigger] pixel_byte(p, 3)] == if pixel_has_color(
            before,
            p,
            color,
        ) {
            0
        } else {
            before[pixel_byte(p, 3)]
        }
    &&& forall|i: int| 4 * (before.len() / 4) <= i < before.len() ==> after[i] == before[i]
}

/// Makes every RGBA8 pixel whose color is `color` fully transparent.
pub fn key_transparent_color(pixels: &mut [u8], color: [u8; 3])
    ensures
        is_color_keyed(old(pixels)@, final(pixels)@, color),
{
    let ghost before = pixels@;
    let count = pixels.len() / 4;
    let mut p: usize = 0;
    while p < count
        invariant
            count == before.len() / 4,
            pixels@.len() == before.len(),
            before.len() <= usize::MAX,
            p <= count,
            forall|q: int, k: int|
                0 <= q < count && 0 <= k < 3 ==> pixels@[#[trigger] pixel_byte(q, k)]
                    == before[pixel_byte(q, k)],
            forall|q: int|
                0 <= q < p ==> pixels@[#[trigger] pixel_byte(q, 3)] == if pixel_has_color(
                    before,
                    q,
                    color,
                ) {
                    0
                } else {
                    before[pixel_byte(q, 3)]
                },
            forall|i: int| 4 * p <= i < before.len() ==> pixels@[i] == before[i],
        decreases count - p,
    {
        assert(4 * p + 4 <= before.len()) by (nonlinear_arith)
            requires
                p < count,
                count == before.len() / 4,
        ;
        let base = 4 * p;
        if pixels[base] == color[0] && pixels[base + 1] == color[1] && pixels[base + 2] == color[2] {
            pixels[base + 3] = 0;
        }
        assert(pixels@[pixel_byte(p as int, 3)] == if pixel_has_color(before, p as int, color) {
            0
        } else {
            before[pixel_byte(p as int, 3)]
        });
        p = p + 1;
    }
}

/// `a + b`, saturating at `u32::MAX`.
pub open spec fn sat_end(a: u32, b: u32) -> int {
    if a + b > u32::MAX {
        u32::MAX as int
    } else {
        a + b
    }
}

/// The source rectangle reaches past the image.
pub open spec fn source_rect_outside(src: TilesetTileRect, image_size: [u32; 2]) -> bool {
    sat_end(src.x, src.width) > image_size[0] || sat_end(src.y, src.height) > image_size[1]
}

/// The atlas rectangle reaches past the atlas or differs in size from the
/// source rectangle.
pub open spec fn atlas_rect_invalid(dst: TilesetTileRect, src: TilesetTileRect, atlas_size: [u32; 2]) -> bool {
    ||| sat_end(dst.x, dst.width) > atlas_size[0]
    ||| sat_end(dst.y, dst.height) > atlas_size[1]
    ||| dst.width != src.width
    ||| dst.height != src.height
}

/// Byte `i` of an atlas `aw` pixels wide lies in one of the first `rows`
/// rows of `dst`, or in the first `bytes` bytes of row `rows` of it.
pub open spec fn blit_done(i: int, aw: int, dst: TilesetTileRect, rows: int, bytes: int) -> bool {
    let p = i / 4;
    let px = p % aw;
    let py = p / aw;
    &&& dst.x <= px < dst.x + dst.width
    &&& dst.y <= py
    &&& (py < dst.y + rows || (py == dst.y + rows && (px - dst.x) * 4 + i % 4 < bytes))
}

/// The byte of an image `iw` pixels wide that byte `i` of the atlas takes
/// when `src` is copied to `dst`: the same channel of the pixel at the same
/// place in `src`.
pub open spec fn blit_from(i: int, aw: int, iw: int, src: TilesetTileRect, dst: TilesetTileRect) -> int {
    let p = i / 4;
    ((src.y + (p / aw - dst.y)) * iw + src.x + (p % aw - dst.x)) * 4 + i % 4
}

/// `after` is the atlas `before` with `src` of `image` copied into `dst`.
pub open spec fn is_blit(
    before: Seq<u8>,
    after: Seq<u8>,
    image: Seq<u8>,
    aw: int,
    iw: int,
    src: TilesetTileRect,
    dst: TilesetTileRect,
) -> bool {
    &&& after.len() == before.len()
    &&& forall|i: int|
        0 <= i < before.len() ==> #[trigger] after[i] == if blit_done(i, aw, dst, dst.height as int, 0) {
            image[blit_from(i, aw, iw, src, dst)]
        } else {
            before[i]
        }
}

proof fn lemma_blit_target(aw: int, ah: int, iw: int, ih: int, src: TilesetTileRect, dst: TilesetTileRect, r: int, k: int)
    requires
        aw > 0,
        dst.x + dst.width <= aw,
        dst.y + dst.height <= ah,
        src.x + src.width <= iw,
        src.y + src.height <= ih,
        src.width == dst.width,
        src.height == dst.height,
        0 <= r < dst.height,
        0 <= k < dst.width * 4,
    ensures
        0 <= ((dst.y + r) * aw + dst.x) * 4 + k < aw * ah * 4,
        0 <= ((src.y + r) * iw + src.x) * 4 + k < iw * ih * 4,
        blit_done(((dst.y + r) * aw + dst.x) * 4 + k, aw, dst, r, k + 1),
        !blit_done(((dst.y + r) * aw + dst.x) * 4 + k, aw, dst, r, k),
        blit_from(((dst.y + r) * aw + dst.x) * 4 + k, aw, iw, src, dst) == ((src.y + r) * iw + src.x) * 4 + k,
{
    let t = ((dst.y + r) * aw + dst.x) * 4 + k;
    let q = k / 4;
    let m = k % 4;
    assert(0 <= q < dst.width && 0 <= m < 4 && k == q * 4 + m) by (nonlinear_arith)
        requires
            0 <= k < dst.width * 4,
            q == k / 4,
            m == k % 4,
    ;
    let p = (dst.y + r) * aw + dst.x + q;
    assert(t == p * 4 + m) by (nonlinear_arith)
        requires
            t == ((dst.y + r) * aw + dst.x) * 4 + k,
            p == (dst.y + r) * aw + dst.x + q,
            k == q * 4 + m,
    ;
    vstd::arithmetic::div_mod::lemma_fundamental_div_mod_converse(t, 4, p, m);
    vstd::arithmetic::div_mod::lemma_fundamental_div_mod_converse(p, aw, dst.y + r, dst.x + q);
    assert(0 <= t < aw * ah * 4) by (nonlinear_arith)
        requires
            t == p * 4 + m,
            p == (dst.y + r) * aw + dst.x + q,
            0 <= m < 4,
            0 <= q < dst.width,
            dst.x + dst.width <= aw,
            0 <= r,
            dst.y + r < ah,
            aw > 0,
            dst.x >= 0,
            dst.y >= 0,
    ;
    assert(0 <= ((src.y + r) * iw + src.x) * 4 + k < iw * ih * 4) by (nonlinear_arith)
        requires
            k == q * 4 + m,
            0 <= m < 4,
            0 <= q < src.width,
            src.x + src.width <= iw,
            0 <= r,
            src.y + r < ih,
            src.x >= 0,
            src.y >= 0,
    ;
    assert(blit_from(t, aw, iw, src, dst) == ((src.y + r) * iw + src.x + q) * 4 + m);
    assert(((src.y + r) * iw + src.x + q) * 4 + m == ((src.y + r) * iw + src.x) * 4 + k) by (nonlinear_arith)
        requires
            k == q * 4 + m,
    ;
}

proof fn lemma_blit_only_target(i: int, aw: int, dst: TilesetTileRect, r: int, k: int)
    requires
        aw > 0,
        i >= 0,
        blit_done(i, aw, dst, r, k + 1),
        !blit_done(i, aw, dst, r, k),
    ensures
        i == ((dst.y + r) * aw + dst.x) * 4 + k,
{
    let p = i / 4;
    let px = p % aw;
    let py = p / aw;
    vstd::arithmetic::div_mod::lemma_fundamental_div_mod(i, 4);
    vstd::arithmetic::div_mod::lemma_fundamental_div_mod(p, aw);
    assert(py == dst.y + r);
    assert((px - dst.x) * 4 + i % 4 == k);
    assert(i == ((dst.y + r) * aw + dst.x) * 4 + k) by (nonlinear_arith)
        requires
            i == 4 * p + i % 4,
            p == aw * py + px,
            py == dst.y + r,
            (px - dst.x) * 4 + i % 4 == k,
    ;
}

proof fn lemma_blit_row_end(i: int, aw: int, dst: TilesetTileRect, r: int)
    requires
        aw > 0,
        i >= 0,
    ensures
        blit_done(i, aw, dst, r, dst.width * 4) == blit_done(i, aw, dst, r + 1, 0),
{
    let p = i / 4;
    let px = p % aw;
    vstd::arithmetic::div_mod::lemma_mod_pos_bound(i, 4);
    if dst.x <= px < dst.x + dst.width {
        assert((px - dst.x) * 4 + i % 4 < dst.width * 4) by (nonlinear_arith)
            requires
                0 <= px - dst.x < dst.width,
                0 <= i % 4 < 4,
        ;
    }
}

fn unsupported_image(image_path: &str, reason: &'static str) -> (e: TiledImportError)
    ensures
        is_unsupported_tileset(e, Some(image_path@), reason@),
{
    TiledImportError::UnsupportedTileset { source: Some(image_path.to_owned()), reason }
}

/// Copies rectangle `source_rect` of an RGBA8 image into rectangle
/// `atlas_rect` of RGBA8 atlas pixels, row by row. Fails, leaving the atlas
/// as it was, where the source rectangle reaches past the image, or the
/// atlas rectangle past the atlas or differs in size. A non-empty copy
/// whose rectangles pass those checks must not run past `u32::MAX` on either
/// axis (only an image or atlas `u32::MAX` pixels across lets one pass).
pub fn blit_tiled_image_rect(
    image: &[u8],
    image_size: [u32; 2],
    source_rect: TilesetTileRect,
    atlas_pixels: &mut [u8],
    atlas_size: [u32; 2],
    atlas_rect: TilesetTileRect,
    image_path: &str,
) -> (r: Result<(), TiledImportError>)
    requires
        image@.len() == image_size[0] * image_size[1] * 4,
        old(atlas_pixels)@.len() == atlas_size[0] * atlas_size[1] * 4,
        !source_rect_outside(source_rect, image_size) && !atlas_rect_invalid(
            atlas_rect,
            source_rect,
            atlas_size,
        ) && source_rect.width > 0 && source_rect.height > 0 ==> {
            &&& source_rect.x + source_rect.width <= u32::MAX
            &&& source_rect.y + source_rect.height <= u32::MAX
            &&& atlas_rect.x + atlas_rect.width <= u32::MAX
            &&& atlas_rect.y + atlas_rect.height <= u32::MAX
        },
    ensures
        if source_rect_outside(source_rect, image_size) {
            &&& r matches Err(e) && is_unsupported_tileset(
                e,
                Some(image_path@),
                "image collection tile source rectangle is outside the source image"@,
            )
            &&& final(atlas_pixels)@ == old(atlas_pixels)@
        } else if atlas_rect_invalid(atlas_rect, source_rect, atlas_size) {
            &&& r matches Err(e) && is_unsupported_tileset(
                e,
                Some(image_path@),
                "image collection atlas rectangle is invalid"@,
            )
            &&& final(atlas_pixels)@ == old(atlas_pixels)@
        } else {
            &&& r is Ok
            &&& is_blit(
                old(atlas_pixels)@,
                final(atlas_pixels)@,
                image@,
                atlas_size[0] as int,
                image_size[0] as int,
                source_rect,
                atlas_rect,
            )
        },
{
    if source_rect.x.saturating_add(source_rect.width) > image_size[0]
        || source_rect.y.saturating_add(source_rect.height) > image_size[1] {
        return Err(
            unsupported_image(
                image_path,
                "image collection tile source rectangle is outside the source image",
            ),
        );
    }
    if atlas_rect.x.saturating_add(atlas_rect.width) > atlas_size[0]
        || atlas_rect.y.saturating_add(atlas_rect.height) > atlas_size[1]
        || atlas_rect.width != source_rect.width || atlas_rect.height != source_rect.height {
        return Err(unsupported_image(image_path, "image collection atlas rectangle is invalid"));
    }
    let ghost before = atlas_pixels@;
    let atlas_len = atlas_pixels.len();
    let image_len = image.len();
    let ghost aw = atlas_size[0] as int;
    let ghost iw = image_size[0] as int;
    if source_rect.height == 0 || source_rect.width == 0 {
        assert forall|i: int| 0 <= i < before.len() implies #[trigger] atlas_pixels@[i] == if blit_done(
            i,
            aw,
            atlas_rect,
            atlas_rect.height as int,
            0,
        ) {
            image@[blit_from(i, aw, iw, source_rect, atlas_rect)]
        } else {
            before[i]
        } by {}
        return Ok(());
    }
    assert(aw > 0) by (nonlinear_arith)
        requires
            atlas_rect.x + atlas_rect.width <= atlas_size[0],
            atlas_rect.width > 0,
            aw == atlas_size[0],
    ;
    assert(source_rect.width * 4 <= before.len()) by (nonlinear_arith)
        requires
            atlas_rect.x + atlas_rect.width <= atlas_size[0],
            atlas_rect.width == source_rect.width,
            atlas_rect.y + atlas_rect.height <= atlas_size[1],
            atlas_rect.height > 0,
            before.len() == atlas_size[0] * atlas_size[1] * 4,
    ;
    assert(before.len() == atlas_len);
    let copy_len: usize = source_rect.width as usize * 4;
    let mut row: u32 = 0;
    while row < source_rect.height
        invariant
            atlas_pixels@.len() == before.len(),
            before.len() == atlas_size[0] * atlas_size[1] * 4,
            image@.len() == image_size[0] * image_size[1] * 4,
            before.len() == atlas_len,
            image@.len() == image_len,
            aw == atlas_size[0],
            iw == image_size[0],
            aw > 0,
            atlas_rect.x + atlas_rect.width <= atlas_size[0],
            atlas_rect.y + atlas_rect.height <= atlas_size[1],
            source_rect.x + source_rect.width <= image_size[0],
            source_rect.y + source_rect.height <= image_size[1],
            atlas_rect.width == source_rect.width,
            atlas_rect.height == source_rect.height,
            copy_len == source_rect.width * 4,
            source_rect.width > 0,
            row <= source_rect.height,
            forall|i: int|
                0 <= i < before.len() ==> #[trigger] atlas_pixels@[i] == if blit_done(
                    i,
                    aw,
                    atlas_rect,
                    row as int,
                    0,
                ) {
                    image@[blit_from(i, aw, iw, source_rect, atlas_rect)]
                } else {
                    before[i]
                },
        decreases source_rect.height - row,
    {
        proof {
            lemma_blit_target(
                aw,
                atlas_size[1] as int,
                iw,
                image_size[1] as int,
                source_rect,
                atlas_rect,
                row as int,
                0,
            );
        }
        let sy = source_rect.y + row;
        let ay = atlas_rect.y + row;
        assert(sy * image_size[0] + source_rect.x <= ((sy * image_size[0] + source_rect.x) * 4) <= usize::MAX) by (nonlinear_arith)
            requires
                ((sy * image_size[0] + source_rect.x) * 4) < image_size[0] * image_size[1] * 4,
                image_size[0] * image_size[1] * 4 == image@.len(),
                image@.len() <= usize::MAX,
                sy >= 0,
        ;
        assert(ay * atlas_size[0] + atlas_rect.x <= ((ay * atlas_size[0] + atlas_rect.x) * 4) <= usize::MAX) by (nonlinear_arith)
            requires
                ((ay * atlas_size[0] + atlas_rect.x) * 4) < atlas_size[0] * atlas_size[1] * 4,
                atlas_size[0] * atlas_size[1] * 4 == before.len(),
                before.len() <= usize::MAX,
                ay >= 0,
        ;
        assert(sy * image_size[0] <= sy * image_size[0] + source_rect.x);
        assert(ay * atlas_size[0] <= ay * atlas_size[0] + atlas_rect.x);
        let source_start: usize = (sy as usize * image_size[0] as usize + source_rect.x as usize) * 4;
        let atlas_start: usize = (ay as usize * atlas_size[0] as usize + atlas_rect.x as usize) * 4;
        let mut k: usize = 0;
        while k < copy_len
            invariant
                atlas_pixels@.len() == before.len(),
                before.len() == atlas_size[0] * atlas_size[1] * 4,
                image@.len() == image_size[0] * image_size[1] * 4,
                before.len() == atlas_len,
                image@.len() == image_len,
                aw == atlas_size[0],
                iw == image_size[0],
                aw > 0,
                atlas_rect.x + atlas_rect.width <= atlas_size[0],
                atlas_rect.y + atlas_rect.height <= atlas_size[1],
                source_rect.x + source_rect.width <= image_size[0],
                source_rect.y + source_rect.height <= image_size[1],
                atlas_rect.width == source_rect.width,
                atlas_rect.height == source_rect.height,
                copy_len == source_rect.width * 4,
                source_rect.width > 0,
                row < source_rect.height,
                k <= copy_len,
                source_start == ((source_rect.y + row) * image_size[0] + source_rect.x) * 4,
                atlas_start == ((atlas_rect.y + row) * atlas_size[0] + atlas_rect.x) * 4,
                forall|i: int|
                    0 <= i < before.len() ==> #[trigger] atlas_pixels@[i] == if blit_done(
                        i,
                        aw,
                        atlas_rect,
                        row as int,
                        k as int,
                    ) {
                        image@[blit_from(i, aw, iw, source_rect, atlas_rect)]
                    } else {
                        before[i]
                    },
            decreases copy_len - k,
        {
            proof {
                lemma_blit_target(
                    aw,
                    atlas_size[1] as int,
                    iw,
                    image_size[1] as int,
                    source_rect,
                    atlas_rect,
                    row as int,
                    k as int,
                );
            }
            let ghost t = atlas_start + k;
            let ghost prev = atlas_pixels@;
            atlas_pixels[atlas_start + k] = image[source_start + k];
            assert forall|i: int| 0 <= i < before.len() implies #[trigger] atlas_pixels@[i] == if blit_done(
                i,
                aw,
                atlas_rect,
                row as int,
                k + 1,
            ) {
                image@[blit_from(i, aw, iw, source_rect, atlas_rect)]
            } else {
                before[i]
            } by {
                if i != t {
                    assert(atlas_pixels@[i] == prev[i]);
                    if blit_done(i, aw, atlas_rect, row as int, k + 1) && !blit_done(
                        i,
                        aw,
                        atlas_rect,
                        row as int,
                        k as int,
                    ) {
                        lemma_blit_only_target(i, aw, atlas_rect, row as int, k as int);
                    }
                    if blit_done(i, aw, atlas_rect, row as int, k as int) {
                        assert(blit_done(i, aw, atlas_rect, row as int, k + 1));
                    }
                }
            }
            k = k + 1;
        }
        assert forall|i: int| 0 <= i < before.len() implies #[trigger] atlas_pixels@[i] == if blit_done(
            i,
            aw,
            atlas_rect,
            row + 1,
            0,
        ) {
            image@[blit_from(i, aw, iw, source_rect, atlas_rect)]
        } else {
            before[i]
        } by {
            lemma_blit_row_end(i, aw, atlas_rect, row as int);
        }
        row = row + 1;
    }
    Ok(())
}

/// Size of an image collection's atlas texture: the tileset's image size,
/// at least 1 by 1.
pub fn image_collection_atlas_size(tileset: &TiledTileset) -> (r: [u32; 2])
    ensures
        r[0] == if tileset.image_size[0] >= 1 {
            tileset.image_size[0]
        } else {
            1
        },
        r[1] == if tileset.image_size[1] >= 1 {
            tileset.image_size[1]
        } else {
            1
        },
{
    [
        if tileset.image_size[0] >= 1 {
            tileset.image_size[0]
        } else {
            1
        },
        if tileset.image_size[1] >= 1 {
            tileset.image_size[1]
        } else {
            1
        },
    ]
}

/// The packed atlas rectangle of tile `tile_id`, whose image is `image`; an
/// error where the tileset has none.
pub fn image_collection_atlas_rect(tileset: &TiledTileset, tile_id: usize, image: &str) -> (r: Result<
    TilesetTileRect,
    TiledImportError,
>)
    ensures
        if tile_id < tileset.tile_rects@.len() && tileset.tile_rects@[tile_id as int] is Some {
            r == Ok::<TilesetTileRect, TiledImportError>(tileset.tile_rects@[tile_id as int]->0)
        } else {
            r matches Err(e) && is_unsupported_tileset(
                e,
                Some(image@),
                "image collection atlas tile is missing a packed rectangle"@,
            )
        },
{
    if tile_id < tileset.tile_rects.len() {
        if let Some(rect) = tileset.tile_rects[tile_id] {
            return Ok(rect);
        }
    }
    Err(unsupported_image(image, "image collection atlas tile is missing a packed rectangle"))
}

} // verus!
