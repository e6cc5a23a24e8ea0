use sky_render::tiled::atlas::blit_tiled_image_rect;
use sky_render::tiled::atlas::image_collection_atlas_rect;
use sky_render::tiled::atlas::image_collection_atlas_size;
use sky_render::tiled::layer::TiledTileset;
use sky_render::tiled::atlas::key_transparent_color;
use sky_render::tiled::error::TiledImportError;
use sky_render::tilemap::types::TilesetTileRect;

fn solid(width: u32, height: u32, rgba: [u8; 4]) -> Vec<u8> {
    (0..width * height).flat_map(|_| rgba).collect()
}

fn pixel(atlas: &[u8], width: u32, x: u32, y: u32) -> [u8; 4] {
    let i = ((y * width + x) * 4) as usize;
    [atlas[i], atlas[i + 1], atlas[i + 2], atlas[i + 3]]
}

fn rect(x: u32, y: u32, width: u32, height: u32) -> TilesetTileRect {
    TilesetTileRect { x, y, width, height }
}

#[test]
fn transparent_color_keys_out_matching_pixels() {
    let mut pixels = vec![255, 0, 255, 200, 255, 0, 254, 200, 255, 0, 255, 9, 1, 2];
    key_transparent_color(&mut pixels, [255, 0, 255]);
    assert_eq!(pixels, vec![255, 0, 255, 0, 255, 0, 254, 200, 255, 0, 255, 0, 1, 2]);
}

#[test]
fn image_collection_tiles_blit_into_their_atlas_rects() {
    let red = solid(2, 2, [255, 0, 0, 255]);
    let green = solid(3, 1, [0, 255, 0, 255]);
    let mut atlas = vec![0u8; 6 * 2 * 4];
    blit_tiled_image_rect(&red, [2, 2], rect(0, 0, 2, 2), &mut atlas, [6, 2], rect(0, 0, 2, 2), "red.png")
        .unwrap();
    blit_tiled_image_rect(&green, [3, 1], rect(0, 0, 3, 1), &mut atlas, [6, 2], rect(3, 0, 3, 1), "green.png")
        .unwrap();
    assert_eq!(pixel(&atlas, 6, 0, 0), [255, 0, 0, 255]);
    assert_eq!(pixel(&atlas, 6, 1, 1), [255, 0, 0, 255]);
    assert_eq!(pixel(&atlas, 6, 2, 0), [0, 0, 0, 0]);
    assert_eq!(pixel(&atlas, 6, 3, 0), [0, 255, 0, 255]);
    assert_eq!(pixel(&atlas, 6, 5, 0), [0, 255, 0, 255]);
    assert_eq!(pixel(&atlas, 6, 3, 1), [0, 0, 0, 0]);
}

#[test]
fn blit_copies_an_inner_rectangle() {
    let image: Vec<u8> = (0..4 * 3 * 4).map(|b| b as u8).collect();
    let mut atlas = vec![7u8; 3 * 3 * 4];
    blit_tiled_image_rect(&image, [4, 3], rect(1, 1, 2, 2), &mut atlas, [3, 3], rect(1, 0, 2, 2), "sheet.png")
        .unwrap();
    assert_eq!(pixel(&atlas, 3, 0, 0), [7, 7, 7, 7]);
    assert_eq!(pixel(&atlas, 3, 1, 0), pixel(&image, 4, 1, 1));
    assert_eq!(pixel(&atlas, 3, 2, 1), pixel(&image, 4, 2, 2));
    assert_eq!(pixel(&atlas, 3, 1, 2), [7, 7, 7, 7]);
}

#[test]
fn blit_refuses_rectangles_outside_or_mismatched() {
    let image = solid(2, 2, [1, 2, 3, 4]);
    let mut atlas = vec![0u8; 4 * 4 * 4];
    let reason = |r: Result<(), TiledImportError>| match r {
        Err(TiledImportError::UnsupportedTileset { source, reason }) => {
            assert_eq!(source.as_deref(), Some("a.png"));
            reason
        }
        other => panic!("unexpected {other:?}"),
    };
    assert_eq!(
        reason(blit_tiled_image_rect(&image, [2, 2], rect(1, 0, 2, 1), &mut atlas, [4, 4], rect(0, 0, 2, 1), "a.png")),
        "image collection tile source rectangle is outside the source image"
    );
    assert_eq!(
        reason(blit_tiled_image_rect(&image, [2, 2], rect(0, 0, 2, 1), &mut atlas, [4, 4], rect(3, 0, 2, 1), "a.png")),
        "image collection atlas rectangle is invalid"
    );
    assert_eq!(
        reason(blit_tiled_image_rect(&image, [2, 2], rect(0, 0, 2, 1), &mut atlas, [4, 4], rect(0, 0, 1, 1), "a.png")),
        "image collection atlas rectangle is invalid"
    );
    assert!(atlas.iter().all(|&b| b == 0));
}

#[test]
fn atlas_lookups_give_size_and_packed_rects() {
    let tileset = TiledTileset {
        first_gid: 1,
        image: "a.png".to_string(),
        tile_size: [2, 2],
        columns: 2,
        rows: 1,
        tile_count: 2,
        image_size: [0, 5],
        margin: 0,
        spacing: 0,
        tile_rects: vec![None, Some(rect(3, 0, 3, 1))],
        tile_images: Vec::new(),
        tile_offset: [0, 0],
        animations: Vec::new(),
        transparent_color: None,
    };
    assert_eq!(image_collection_atlas_size(&tileset), [1, 5]);
    assert_eq!(image_collection_atlas_rect(&tileset, 1, "b.png").unwrap(), rect(3, 0, 3, 1));
    for id in [0, 2] {
        match image_collection_atlas_rect(&tileset, id, "b.png") {
            Err(TiledImportError::UnsupportedTileset { source, reason }) => {
                assert_eq!(source.as_deref(), Some("b.png"));
                assert_eq!(reason, "image collection atlas tile is missing a packed rectangle");
            }
            other => panic!("unexpected {other:?}"),
        }
    }
}
