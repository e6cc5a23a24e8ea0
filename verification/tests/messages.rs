use sky_render::mesh::MeshPassError;
use sky_render::text::decimal_string;
use sky_render::tiled::error::Base64DecodeError;
use sky_render::tiled::error::TiledImportError;
use sky_render::tiled::physics::TiledPhysicsError;
use sky_render::tilemap::types::TilemapOrientation;

#[test]
fn decimal_strings_have_no_leading_zeros() {
    assert_eq!(decimal_string(0), "0");
    assert_eq!(decimal_string(7), "7");
    assert_eq!(decimal_string(10), "10");
    assert_eq!(decimal_string(u64::MAX), u64::MAX.to_string());
}

#[test]
fn mesh_pass_errors_describe_the_mismatch() {
    let e = MeshPassError::TargetSampleCountMismatch {
        pipeline: "lit".to_string(),
        pipeline_samples: 4,
        target_samples: 1,
    };
    assert_eq!(e.message(), "Mesh pipeline \"lit\" uses sample_count=4, but the color target uses 1");
    let e = MeshPassError::VertexRangeOutOfBounds {
        mesh: "cube".to_string(),
        start: 2,
        end: 40,
        vertex_count: 24,
    };
    assert_eq!(e.message(), "Vertex range 2..40 is out of bounds for mesh \"cube\" with 24 vertices");
    assert_eq!(
        MeshPassError::AliasingTargets.message(),
        "MeshPass requires distinct color and depth targets"
    );
    assert_eq!(
        MeshPassError::InvalidInstanceRange { start: 3, end: 1 }.message(),
        "Invalid instance range 3..1"
    );
    assert_eq!(
        MeshPassError::DepthSampleCountMismatch { color_samples: 4, depth_samples: 1 }.message(),
        "Color/depth sample counts must match, got color=4 depth=1"
    );
}

#[test]
fn tiled_import_errors_describe_the_failure() {
    let e = TiledImportError::DecodeLayerData {
        layer: "Ground".to_string(),
        source: Base64DecodeError::InvalidByte(3, 61),
    };
    assert_eq!(
        e.message(),
        "failed to decode base64 tile data for `Ground`: Invalid byte 61, offset 3."
    );
    assert_eq!(
        TiledImportError::UnsupportedTileset { source: None, reason: "tileset is missing tilewidth" }
            .message(),
        "unsupported embedded Tiled tileset: tileset is missing tilewidth"
    );
    assert_eq!(
        TiledImportError::UnsupportedTileset {
            source: Some("maps/ts.tsx".to_string()),
            reason: "tileset is missing tilewidth"
        }
        .message(),
        "unsupported Tiled tileset maps/ts.tsx: tileset is missing tilewidth"
    );
    assert_eq!(
        TiledImportError::TileGidOutOfRange { gid: 99 }.message(),
        "Tiled tile gid 99 does not belong to the imported tileset"
    );
    assert_eq!(
        TiledImportError::InflateLayerData { layer: "L".to_string(), source: "corrupt deflate stream".to_string() }
            .message(),
        "failed to decompress tile data for `L`: corrupt deflate stream"
    );
    assert_eq!(Base64DecodeError::InvalidPadding.message(), "Invalid padding");
}

#[test]
fn base64_error_messages_match_the_decoder() {
    let cases = [
        (Base64DecodeError::InvalidByte(5, 33), base64::DecodeError::InvalidByte(5, 33)),
        (Base64DecodeError::InvalidLength, base64::DecodeError::InvalidLength),
        (Base64DecodeError::InvalidLastSymbol(2, 66), base64::DecodeError::InvalidLastSymbol(2, 66)),
        (Base64DecodeError::InvalidPadding, base64::DecodeError::InvalidPadding),
    ];
    for (ours, theirs) in cases {
        assert_eq!(ours.message(), theirs.to_string());
    }
}

#[test]
fn physics_errors_describe_the_failure() {
    assert_eq!(
        TiledPhysicsError::UnsupportedTileOrientation { orientation: TilemapOrientation::Isometric }
            .message(),
        "tile colliders are only supported for orthogonal maps in v1; got Isometric"
    );
    assert_eq!(
        TiledPhysicsError::UnsupportedObjectShape {
            layer: "Collision".to_string(),
            object_id: 7,
            shape: "ellipse",
        }
        .message(),
        "object 7 in layer 'Collision' uses unsupported physics shape ellipse"
    );
}
