# sky_render

The verified core of a 2D/3D renderer: the Tiled map importer (JSON and TMX
maps, tilesets, tile layer data, properties, image-collection atlases and
collision grids), tilemap draw ordering and extraction decisions, the render
pipeline's frame phases and pass dispatch, the SSGI and DDGI global
illumination planning, the GI provider runtime, the scene prepass batching,
Live2D update scheduling and a few sprite, mesh and fullscreen helpers.

## Layout

- `src/` is the library, written in Verus: every function carries a
  contract, and the laws that span several functions are public proof
  functions (`lemma_*`). Calls into base64, flate2 and roxmltree go through
  a few small trusted wrappers in `src/tiled/data.rs` and `src/tiled/xml.rs`.
- `app/` is ordinary Rust around the library: reading map, tileset and image
  files, serde types for the JSON formats, image decoding, and wgpu drawing.
- `tests/` holds the tests, run against the compiled library.

Run `verus` on `src/lib.rs` to check the proofs.
