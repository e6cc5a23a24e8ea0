//! TMX tilesets: the `<tileset>` references of a map, and the attributes,
//! tiles, animations and offsets of a `<tileset>` element.
use crate::text::concat3;
use crate::text::str_equal;
use crate::tiled::collection::build_collection;
use crate::tiled::collection::collection_needs_image_size;
use crate::tiled::collection::image_tiles;
use crate::tiled::collection::is_collection_tileset;
use crate::tiled::collection::max_tile_id;
use crate::tiled::color::transparent_text_splits_cleanly;
use crate::tiled::color::parse_transparent_color;
use crate::tiled::color::spec_transparent_color;
use crate::tiled::color::transparent_color_text;
use crate::tiled::error::is_unsupported_tileset;
use crate::tiled::color::is_malformed;
use crate::tiled::error::malformed;
use crate::tiled::error::map_failure_is;
use crate::tiled::error::map_outcome;
use crate::tiled::error::MapFailure;
use crate::tiled::error::TiledImportError;
use crate::tiled::layer::TiledTileset;
use crate::tiled::parse::opt_string_view;
use crate::tiled::properties::collect_tmx_properties;
use crate::tiled::properties::collect_tmx_tile_properties;
use crate::tiled::properties::properties_view;
use crate::tiled::properties::property_colors_split_cleanly;
use crate::tiled::properties::spec_properties;
use crate::tiled::properties::spec_tile_properties;
use crate::tiled::properties::table_view;
use crate::tiled::properties::PropertyValueView;
use crate::tiled::properties::TiledProperty;
use crate::tiled::tileset::animations_fit;
use crate::tiled::tileset::animations_in_range;
use crate::tiled::tileset::unsupported_tileset;
use crate::tiled::tileset::TiledJsonTile;
use crate::tiled::tmx::unwrap_or_u32;
use crate::tiled::tmx::root_element_of;
use crate::tiled::tmx::unwrap_or_i32;
use crate::tiled::xml::attr_value;
use crate::tiled::xml::attribute;
use crate::tiled::xml::child_elements;
use crate::tiled::xml::children_named;
use crate::tiled::xml::element_children;
use crate::tiled::xml::first_child_element;
use crate::tiled::xml::is_child_element;
use crate::tiled::xml::optional_i32_attr;
use crate::tiled::xml::optional_u32_attr;
use crate::tiled::xml::required_attr;
use crate::tiled::xml::spec_optional_u32_attr;
use crate::tiled::xml::spec_required_attr;
use crate::tiled::xml::str_opt_view;
use crate::tiled::xml::required_u32_attr;
use crate::tiled::xml::spec_optional_i32_attr;
use crate::tiled::xml::spec_required_u32_attr;
use crate::tiled::xml::XmlNode;
use crate::tilemap::types::TileAnimation;
use crate::tilemap::types::TileAnimationFrame;
use crate::tilemap::types::TileId;
use vstd::prelude::*;
use vstd::string::StringExecFns;

verus! {

/// A `<tileset>` element of a map: a reference to a tileset file, or a
/// tileset written inside the map, at a node.
#[derive(Debug)]
pub enum TmxTilesetRef {
    External { first_gid: u32, source: String },
    Embedded { first_gid: u32, node: usize },
}

/// The first gid and the `source` of `<tileset>` element `n`.
pub open spec fn spec_tileset_ref(n: XmlNode) -> Result<(u32, Option<Seq<char>>), MapFailure> {
    match malformed(spec_required_u32_attr(n, "firstgid"@)) {
        Err(f) => Err(f),
        Ok(g) => Ok((g, attr_value(n, "source"@))),
    }
}

/// Reads `<tileset>` element `t` of a map: its required first gid, and the
/// file it refers to, if any.
pub fn read_tmx_tileset_ref(nodes: &Vec<XmlNode>, t: usize) -> (r: Result<TmxTilesetRef, TiledImportError>)
    requires
        t < nodes@.len(),
    ensures
        match spec_tileset_ref(nodes@[t as int]) {
            Err(f) => r matches Err(e) && map_failure_is(e, f),
            Ok((g, None)) => r matches Ok(TmxTilesetRef::Embedded { first_gid, node }) && first_gid == g
                && node == t,
            Ok((g, Some(s))) => r matches Ok(TmxTilesetRef::External { first_gid, source })
                && first_gid == g && source@ == s,
        },
{
    let first_gid = required_u32_attr(&nodes[t], "firstgid")?;
    match attribute(&nodes[t], "source") {
        Some(s) => Ok(TmxTilesetRef::External { first_gid, source: s.to_owned() }),
        None => Ok(TmxTilesetRef::Embedded { first_gid, node: t }),
    }
}

/// The message for an external tileset file whose root is not a `<tileset>`.
pub open spec fn tileset_root_message(path: Seq<char>) -> Seq<char> {
    "external tileset "@ + path + " must use a <tileset> root"@
}

/// Finds the `<tileset>` root element of an external tileset file read
/// from `path`.
pub fn external_tileset_root(nodes: &Vec<XmlNode>, path: &str) -> (r: Result<usize, TiledImportError>)
    ensures
        match root_element_of(nodes@) {
            Some(k) => if nodes@[k as int].tag@ == "tileset"@ {
                r matches Ok(x) && x == k
            } else {
                r matches Err(e) && is_malformed(e, tileset_root_message(path@))
            },
            None => r matches Err(e) && is_malformed(e, tileset_root_message(path@)),
        },
{
    let roots = element_children(nodes, 0);
    if roots.len() > 0 && str_equal(nodes[roots[0]].tag.as_str(), "tileset") {
        Ok(roots[0])
    } else {
        let m = concat3("external tileset ", path, " must use a <tileset> root");
        Err(TiledImportError::MalformedMap(m))
    }
}

/// The drawing offset of tileset element `t`: the optional `x` and `y` of
/// its first `<tileoffset>` child, 0 by default.
pub open spec fn spec_tile_offset(nodes: Seq<XmlNode>, t: int) -> Result<[i32; 2], MapFailure> {
    let offsets = children_named(nodes, t, "tileoffset"@);
    if offsets.len() == 0 {
        Ok([0i32, 0i32])
    } else {
        let o = nodes[offsets[0] as int];
        match malformed(spec_optional_i32_attr(o, "x"@)) {
            Err(f) => Err(f),
            Ok(x) => match malformed(spec_optional_i32_attr(o, "y"@)) {
                Err(f) => Err(f),
                Ok(y) => Ok([unwrap_or_i32(x, 0), unwrap_or_i32(y, 0)]),
            },
        }
    }
}

/// Reads the drawing offset of tileset element `t` (see [`spec_tile_offset`]).
pub fn read_tmx_tile_offset(nodes: &Vec<XmlNode>, t: usize) -> (r: Result<[i32; 2], TiledImportError>)
    ensures
        map_outcome(r, spec_tile_offset(nodes@, t as int)),
{
    let o = match first_child_element(nodes, t, "tileoffset") {
        None => {
            return Ok([0, 0]);
        },
        Some(o) => o,
    };
    let x = match optional_i32_attr(&nodes[o], "x")? {
        Some(v) => v,
        None => 0,
    };
    let y = match optional_i32_attr(&nodes[o], "y")? {
        Some(v) => v,
        None => 0,
    };
    Ok([x, y])
}

/// An animation as plain values: the tile, and each frame's tile and duration.
pub open spec fn animation_view(a: TileAnimation) -> (u32, Seq<(u32, u32)>) {
    (a.tile_id.0, a.frames@.map_values(|f: TileAnimationFrame| (f.tile_id.0, f.duration_ms)))
}

pub open spec fn animations_view(a: Seq<TileAnimation>) -> Seq<(u32, Seq<(u32, u32)>)> {
    a.map_values(|x: TileAnimation| animation_view(x))
}

/// The frames `fs` (`<frame>` elements): each's required `tileid` and
/// `duration`, in order; or the first failure.
pub open spec fn spec_frames(nodes: Seq<XmlNode>, fs: Seq<usize>) -> Result<Seq<(u32, u32)>, MapFailure>
    decreases fs.len(),
{
    if fs.len() == 0 {
        Ok(Seq::empty())
    } else {
        match spec_frames(nodes, fs.drop_last()) {
            Err(f) => Err(f),
            Ok(prev) => {
                let n = nodes[fs.last() as int];
                match malformed(spec_required_u32_attr(n, "tileid"@)) {
                    Err(f) => Err(f),
                    Ok(tile) => match malformed(spec_required_u32_attr(n, "duration"@)) {
                        Err(f) => Err(f),
                        Ok(d) => Ok(prev.push((tile, d))),
                    },
                }
            },
        }
    }
}

/// The animation of `<tile>` element `k`: none without an `<animation>`
/// child; else its required `id` and the frames of its first
/// `<animation>`, none when there are no frames.
pub open spec fn spec_tile_animation(nodes: Seq<XmlNode>, k: int) -> Result<
    Option<(u32, Seq<(u32, u32)>)>,
    MapFailure,
> {
    let anims = children_named(nodes, k, "animation"@);
    if anims.len() == 0 {
        Ok(None)
    } else {
        match malformed(spec_required_u32_attr(nodes[k], "id"@)) {
            Err(f) => Err(f),
            Ok(id) => match spec_frames(nodes, children_named(nodes, anims[0] as int, "frame"@)) {
                Err(f) => Err(f),
                Ok(frames) => if frames.len() > 0 {
                    Ok(Some((id, frames)))
                } else {
                    Ok(None)
                },
            },
        }
    }
}

/// The animations of the `<tile>` elements `tiles`, in order.
pub open spec fn spec_animations(nodes: Seq<XmlNode>, tiles: Seq<usize>) -> Result<
    Seq<(u32, Seq<(u32, u32)>)>,
    MapFailure,
>
    decreases tiles.len(),
{
    if tiles.len() == 0 {
        Ok(Seq::empty())
    } else {
        match spec_animations(nodes, tiles.drop_last()) {
            Err(f) => Err(f),
            Ok(prev) => match spec_tile_animation(nodes, tiles.last() as int) {
                Err(f) => Err(f),
                Ok(None) => Ok(prev),
                Ok(Some(a)) => Ok(prev.push(a)),
            },
        }
    }
}

/// The tile animations of tileset element `t`.
pub open spec fn spec_tmx_animations(nodes: Seq<XmlNode>, t: int) -> Result<
    Seq<(u32, Seq<(u32, u32)>)>,
    MapFailure,
> {
    spec_animations(nodes, children_named(nodes, t, "tile"@))
}

proof fn lemma_frames_error_persists(nodes: Seq<XmlNode>, fs: Seq<usize>, k: int)
    requires
        0 <= k <= fs.len(),
        spec_frames(nodes, fs.take(k)) is Err,
    ensures
        spec_frames(nodes, fs) == spec_frames(nodes, fs.take(k)),
    decreases fs.len(),
{
    if k < fs.len() {
        assert(fs.drop_last().take(k) =~= fs.take(k));
        lemma_frames_error_persists(nodes, fs.drop_last(), k);
    } else {
        assert(fs.take(k) =~= fs);
    }
}

proof fn lemma_animations_error_persists(nodes: Seq<XmlNode>, tiles: Seq<usize>, k: int)
    requires
        0 <= k <= tiles.len(),
        spec_animations(nodes, tiles.take(k)) is Err,
    ensures
        spec_animations(nodes, tiles) == spec_animations(nodes, tiles.take(k)),
    decreases tiles.len(),
{
    if k < tiles.len() {
        assert(tiles.drop_last().take(k) =~= tiles.take(k));
        lemma_animations_error_persists(nodes, tiles.drop_last(), k);
    } else {
        assert(tiles.take(k) =~= tiles);
    }
}

fn read_frames(nodes: &Vec<XmlNode>, anim: usize) -> (r: Result<Vec<TileAnimationFrame>, TiledImportError>)
    ensures
        match spec_frames(nodes@, children_named(nodes@, anim as int, "frame"@)) {
            Ok(v) => r matches Ok(x) && x@.map_values(
                |f: TileAnimationFrame| (f.tile_id.0, f.duration_ms),
            ) == v,
            Err(f) => r matches Err(e) && map_failure_is(e, f),
        },
{
    let fs = child_elements(nodes, anim, "frame");
    let mut frames: Vec<TileAnimationFrame> = Vec::new();
    let mut i: usize = 0;
    assert(fs@.take(0) =~= Seq::<usize>::empty());
    assert(frames@.map_values(|f: TileAnimationFrame| (f.tile_id.0, f.duration_ms)) =~= Seq::<(u32, u32)>::empty());
    while i < fs.len()
        invariant
            i <= fs@.len(),
            fs@ == children_named(nodes@, anim as int, "frame"@),
            forall|j: int| 0 <= j < fs@.len() ==> (#[trigger] fs@[j]) < nodes@.len(),
            spec_frames(nodes@, fs@.take(i as int)) == Ok::<Seq<(u32, u32)>, MapFailure>(
                frames@.map_values(|f: TileAnimationFrame| (f.tile_id.0, f.duration_ms)),
            ),
        decreases fs.len() - i,
    {
        assert(fs@.take(i + 1).drop_last() =~= fs@.take(i as int));
        assert(fs@.take(i + 1).last() == fs@[i as int]);
        let node = &nodes[fs[i]];
        let tile = match required_u32_attr(node, "tileid") {
            Ok(v) => v,
            Err(e) => {
                proof {
                    lemma_frames_error_persists(nodes@, fs@, i + 1);
                }
                return Err(e);
            },
        };
        let duration = match required_u32_attr(node, "duration") {
            Ok(v) => v,
            Err(e) => {
                proof {
                    lemma_frames_error_persists(nodes@, fs@, i + 1);
                }
                return Err(e);
            },
        };
        let ghost before = frames@;
        frames.push(TileAnimationFrame { tile_id: TileId(tile), duration_ms: duration });
        assert(frames@.map_values(|f: TileAnimationFrame| (f.tile_id.0, f.duration_ms))
            =~= before.map_values(|f: TileAnimationFrame| (f.tile_id.0, f.duration_ms)).push(
            (tile, duration),
        ));
        i = i + 1;
    }
    assert(fs@.take(i as int) =~= fs@);
    Ok(frames)
}

/// Reads the tile animations of tileset element `t` (see
/// [`spec_tmx_animations`]).
pub fn collect_tmx_tile_animations(nodes: &Vec<XmlNode>, t: usize) -> (r: Result<
    Vec<TileAnimation>,
    TiledImportError,
>)
    ensures
        match spec_tmx_animations(nodes@, t as int) {
            Ok(v) => r matches Ok(x) && animations_view(x@) == v,
            Err(f) => r matches Err(e) && map_failure_is(e, f),
        },
{
    let tiles = child_elements(nodes, t, "tile");
    let mut out: Vec<TileAnimation> = Vec::new();
    let mut i: usize = 0;
    assert(tiles@.take(0) =~= Seq::<usize>::empty());
    assert(animations_view(out@) =~= Seq::<(u32, Seq<(u32, u32)>)>::empty());
    while i < tiles.len()
        invariant
            i <= tiles@.len(),
            tiles@ == children_named(nodes@, t as int, "tile"@),
            forall|j: int| 0 <= j < tiles@.len() ==> (#[trigger] tiles@[j]) < nodes@.len(),
            spec_animations(nodes@, tiles@.take(i as int)) == Ok::<
                Seq<(u32, Seq<(u32, u32)>)>,
                MapFailure,
            >(animations_view(out@)),
        decreases tiles.len() - i,
    {
        assert(tiles@.take(i + 1).drop_last() =~= tiles@.take(i as int));
        assert(tiles@.take(i + 1).last() == tiles@[i as int]);
        let k = tiles[i];
        match first_child_element(nodes, k, "animation") {
            None => {},
            Some(anim) => {
                let id = match required_u32_attr(&nodes[k], "id") {
                    Ok(v) => v,
                    Err(e) => {
                        proof {
                            lemma_animations_error_persists(nodes@, tiles@, i + 1);
                        }
                        return Err(e);
                    },
                };
                let frames = match read_frames(nodes, anim) {
                    Ok(f) => f,
                    Err(e) => {
                        proof {
                            lemma_animations_error_persists(nodes@, tiles@, i + 1);
                        }
                        return Err(e);
                    },
                };
                if frames.len() > 0 {
                    let ghost before = out@;
                    let ghost fv = frames@.map_values(|f: TileAnimationFrame| (f.tile_id.0, f.duration_ms));
                    out.push(TileAnimation { tile_id: TileId(id), frames });
                    assert(animations_view(out@) =~= animations_view(before).push((id, fv)));
                }
            },
        }
        i = i + 1;
    }
    assert(tiles@.take(i as int) =~= tiles@);
    Ok(out)
}

/// The fields of a single-image `<tileset>`, read from its element and its
/// `<image>` child, before the image is found on disk.
#[derive(Debug)]
pub struct TmxImageTileset {
    /// The image's `source`, as written.
    pub image: Option<String>,
    pub tilewidth: Option<u32>,
    pub tileheight: Option<u32>,
    pub columns: Option<u32>,
    pub tilecount: Option<u32>,
    pub imagewidth: Option<u32>,
    pub imageheight: Option<u32>,
    pub transparent_color: Option<[u8; 3]>,
    pub tile_offset: [i32; 2],
    pub animations: Vec<TileAnimation>,
    pub properties: Vec<TiledProperty>,
    pub tile_properties: Vec<Vec<TiledProperty>>,
    pub margin: u32,
    pub spacing: u32,
}

/// A single-image tileset's fields as plain values.
pub ghost struct TmxImageTilesetView {
    pub image: Option<Seq<char>>,
    pub tilewidth: Option<u32>,
    pub tileheight: Option<u32>,
    pub columns: Option<u32>,
    pub tilecount: Option<u32>,
    pub imagewidth: Option<u32>,
    pub imageheight: Option<u32>,
    pub transparent_color: Option<Seq<u8>>,
    pub tile_offset: [i32; 2],
    pub animations: Seq<(u32, Seq<(u32, u32)>)>,
    pub properties: Seq<(Seq<char>, PropertyValueView)>,
    pub tile_properties: Seq<Seq<(Seq<char>, PropertyValueView)>>,
    pub margin: u32,
    pub spacing: u32,
}

pub open spec fn image_tileset_view(x: TmxImageTileset) -> TmxImageTilesetView {
    TmxImageTilesetView {
        image: opt_string_view(x.image),
        tilewidth: x.tilewidth,
        tileheight: x.tileheight,
        columns: x.columns,
        tilecount: x.tilecount,
        imagewidth: x.imagewidth,
        imageheight: x.imageheight,
        transparent_color: match x.transparent_color {
            Some(c) => Some(c@),
            None => None,
        },
        tile_offset: x.tile_offset,
        animations: animations_view(x.animations@),
        properties: properties_view(x.properties@),
        tile_properties: table_view(x.tile_properties@),
        margin: x.margin,
        spacing: x.spacing,
    }
}

/// The transparent color of an `<image>`'s optional `trans` attribute.
pub open spec fn spec_trans_attr(n: XmlNode) -> Result<Option<Seq<u8>>, MapFailure> {
    match attr_value(n, "trans"@) {
        None => Ok(None),
        Some(v) => match spec_transparent_color(transparent_color_text(v)) {
            Ok(c) => Ok(Some(c)),
            Err(m) => Err(MapFailure::Malformed(m)),
        },
    }
}

/// The fields of single-image tileset element `t` with `<image>` child
/// `image`, read in order: the image source, the tileset's optional tile
/// size, column count and tile count, the image's optional size, its
/// transparent color, the tile offset, the tile animations, the tileset's
/// and its tiles' properties, then the optional margin and spacing (0 by
/// default).
pub open spec fn spec_tmx_image_tileset(nodes: Seq<XmlNode>, t: int, image: int) -> Result<
    TmxImageTilesetView,
    MapFailure,
> {
    let n = nodes[t];
    let im = nodes[image];
    match malformed(spec_optional_u32_attr(n, "tilewidth"@)) {
        Err(f) => Err(f),
        Ok(tilewidth) => match malformed(spec_optional_u32_attr(n, "tileheight"@)) {
            Err(f) => Err(f),
            Ok(tileheight) => match malformed(spec_optional_u32_attr(n, "columns"@)) {
                Err(f) => Err(f),
                Ok(columns) => match malformed(spec_optional_u32_attr(n, "tilecount"@)) {
                    Err(f) => Err(f),
                    Ok(tilecount) => match malformed(spec_optional_u32_attr(im, "width"@)) {
                        Err(f) => Err(f),
                        Ok(imagewidth) => match malformed(spec_optional_u32_attr(im, "height"@)) {
                            Err(f) => Err(f),
                            Ok(imageheight) => match spec_trans_attr(im) {
                                Err(f) => Err(f),
                                Ok(transparent_color) => match spec_tile_offset(nodes, t) {
                                    Err(f) => Err(f),
                                    Ok(tile_offset) => match spec_tmx_animations(nodes, t) {
                                        Err(f) => Err(f),
                                        Ok(animations) => match spec_properties(nodes, t) {
                                            Err(f) => Err(f),
                                            Ok(properties) => match spec_tile_properties(nodes, t) {
                                                Err(f) => Err(f),
                                                Ok(tile_properties) => match malformed(spec_optional_u32_attr(n, "margin"@)) {
                                                    Err(f) => Err(f),
                                                    Ok(margin) => match malformed(spec_optional_u32_attr(n, "spacing"@)) {
                                                        Err(f) => Err(f),
                                                        Ok(spacing) => Ok(
                                                            TmxImageTilesetView {
                                                                image: attr_value(im, "source"@),
                                                                tilewidth,
                                                                tileheight,
                                                                columns,
                                                                tilecount,
                                                                imagewidth,
                                                                imageheight,
                                                                transparent_color,
                                                                tile_offset,
                                                                animations,
                                                                properties,
                                                                tile_properties,
                                                                margin: unwrap_or_u32(margin, 0),
                                                                spacing: unwrap_or_u32(spacing, 0),
                                                            },
                                                        ),
                                                    },
                                                },
                                            },
                                        },
                                    },
                                },
                            },
                        },
                    },
                },
            },
        },
    }
}

/// Parsing the `trans` attribute of `<image>` node `n` cuts its hex digits
/// into byte pairs on character boundaries.
pub open spec fn trans_on_char_boundaries(n: XmlNode) -> bool {
    attr_value(n, "trans"@) matches Some(v) ==> transparent_text_splits_cleanly(transparent_color_text(v))
}

fn read_trans_attr(node: &XmlNode) -> (r: Result<Option<[u8; 3]>, TiledImportError>)
    requires
        trans_on_char_boundaries(*node),
    ensures
        match spec_trans_attr(*node) {
            Ok(None) => r matches Ok(None),
            Ok(Some(c)) => r matches Ok(Some(x)) && x@ == c,
            Err(f) => r matches Err(e) && map_failure_is(e, f),
        },
{
    parse_transparent_color(attribute(node, "trans"))
}

/// Reads single-image tileset element `t` with `<image>` child `image`
/// (see [`spec_tmx_image_tileset`]).
pub fn read_tmx_image_tileset(nodes: &Vec<XmlNode>, t: usize, image: usize) -> (r: Result<
    TmxImageTileset,
    TiledImportError,
>)
    requires
        t < nodes@.len(),
        image < nodes@.len(),
        trans_on_char_boundaries(nodes@[image as int]),
        property_colors_split_cleanly(nodes@),
    ensures
        match spec_tmx_image_tileset(nodes@, t as int, image as int) {
            Ok(v) => r matches Ok(x) && image_tileset_view(x) == v,
            Err(f) => r matches Err(e) && map_failure_is(e, f),
        },
{
    let n = &nodes[t];
    let im = &nodes[image];
    let tilewidth = optional_u32_attr(n, "tilewidth")?;
    let tileheight = optional_u32_attr(n, "tileheight")?;
    let columns = optional_u32_attr(n, "columns")?;
    let tilecount = optional_u32_attr(n, "tilecount")?;
    let imagewidth = optional_u32_attr(im, "width")?;
    let imageheight = optional_u32_attr(im, "height")?;
    let transparent_color = read_trans_attr(im)?;
    let tile_offset = read_tmx_tile_offset(nodes, t)?;
    let animations = collect_tmx_tile_animations(nodes, t)?;
    let properties = collect_tmx_properties(nodes, t)?;
    let tile_properties = collect_tmx_tile_properties(nodes, t)?;
    let margin = match optional_u32_attr(n, "margin")? {
        Some(v) => v,
        None => 0,
    };
    let spacing = match optional_u32_attr(n, "spacing")? {
        Some(v) => v,
        None => 0,
    };
    let source = match attribute(im, "source") {
        Some(s) => Some(s.to_owned()),
        None => None,
    };
    Ok(
        TmxImageTileset {
            image: source,
            tilewidth,
            tileheight,
            columns,
            tilecount,
            imagewidth,
            imageheight,
            transparent_color,
            tile_offset,
            animations,
            properties,
            tile_properties,
            margin,
            spacing,
        },
    )
}

/// A tile of a TMX image collection as plain values: its id, its image's
/// `source` as written, its rectangle's optional position and size, and its
/// image's optional size.
pub ghost struct TmxTileRecord {
    pub id: u32,
    pub image: Seq<char>,
    pub x: Option<u32>,
    pub y: Option<u32>,
    pub width: Option<u32>,
    pub height: Option<u32>,
    pub imagewidth: Option<u32>,
    pub imageheight: Option<u32>,
}

pub open spec fn tile_record(t: TiledJsonTile) -> TmxTileRecord {
    TmxTileRecord {
        id: t.id,
        image: match t.image {
            Some(i) => i@,
            None => Seq::empty(),
        },
        x: t.x,
        y: t.y,
        width: t.width,
        height: t.height,
        imagewidth: t.imagewidth,
        imageheight: t.imageheight,
    }
}

/// The image tile of `<tile>` element `k`: none without an `<image>` child;
/// else, read in order, its first image's required `source`, the tile's
/// required `id` and optional `x` and `y`, the image's optional `width` and
/// `height`, and the tile's optional `width` and `height`.
pub open spec fn spec_collection_tile(nodes: Seq<XmlNode>, k: int) -> Result<Option<TmxTileRecord>, MapFailure> {
    let images = children_named(nodes, k, "image"@);
    if images.len() == 0 {
        Ok(None)
    } else {
        let n = nodes[k];
        let im = nodes[images[0] as int];
        match malformed(spec_required_attr(im, "source"@)) {
            Err(f) => Err(f),
            Ok(image) => match malformed(spec_required_u32_attr(n, "id"@)) {
                Err(f) => Err(f),
                Ok(id) => match malformed(spec_optional_u32_attr(n, "x"@)) {
                    Err(f) => Err(f),
                    Ok(x) => match malformed(spec_optional_u32_attr(n, "y"@)) {
                        Err(f) => Err(f),
                        Ok(y) => match malformed(spec_optional_u32_attr(im, "width"@)) {
                            Err(f) => Err(f),
                            Ok(imagewidth) => match malformed(spec_optional_u32_attr(im, "height"@)) {
                                Err(f) => Err(f),
                                Ok(imageheight) => match malformed(spec_optional_u32_attr(n, "width"@)) {
                                    Err(f) => Err(f),
                                    Ok(width) => match malformed(spec_optional_u32_attr(n, "height"@)) {
                                        Err(f) => Err(f),
                                        Ok(height) => Ok(
                                            Some(
                                                TmxTileRecord {
                                                    id,
                                                    image,
                                                    x,
                                                    y,
                                                    width,
                                                    height,
                                                    imagewidth,
                                                    imageheight,
                                                },
                                            ),
                                        ),
                                    },
                                },
                            },
                        },
                    },
                },
            },
        }
    }
}

/// The image tiles of the `<tile>` elements `tiles`, in order.
pub open spec fn spec_collection_tiles(nodes: Seq<XmlNode>, tiles: Seq<usize>) -> Result<
    Seq<TmxTileRecord>,
    MapFailure,
>
    decreases tiles.len(),
{
    if tiles.len() == 0 {
        Ok(Seq::empty())
    } else {
        match spec_collection_tiles(nodes, tiles.drop_last()) {
            Err(f) => Err(f),
            Ok(prev) => match spec_collection_tile(nodes, tiles.last() as int) {
                Err(f) => Err(f),
                Ok(None) => Ok(prev),
                Ok(Some(r)) => Ok(prev.push(r)),
            },
        }
    }
}

/// The tile size and image tiles of image collection tileset element `t`
/// with first gid `first_gid`, from the file `source` if any: the first gid
/// must be positive and the tile size given, checked in that order, before
/// the tiles are read.
pub open spec fn spec_tmx_collection(
    nodes: Seq<XmlNode>,
    t: int,
    first_gid: u32,
    source: Option<Seq<char>>,
) -> Result<(u32, u32, Seq<TmxTileRecord>), MapFailure> {
    if first_gid == 0 {
        Err(MapFailure::Tileset(source, "firstgid must be greater than zero"@))
    } else {
        match malformed(spec_optional_u32_attr(nodes[t], "tilewidth"@)) {
            Err(f) => Err(f),
            Ok(None) => Err(MapFailure::Tileset(source, "tileset is missing tilewidth"@)),
            Ok(Some(w)) => match malformed(spec_optional_u32_attr(nodes[t], "tileheight"@)) {
                Err(f) => Err(f),
                Ok(None) => Err(MapFailure::Tileset(source, "tileset is missing tileheight"@)),
                Ok(Some(h)) => match spec_collection_tiles(nodes, children_named(nodes, t, "tile"@)) {
                    Err(f) => Err(f),
                    Ok(records) => Ok((w, h, records)),
                },
            },
        }
    }
}

/// The tile size and image tiles of a TMX image collection tileset.
#[derive(Debug)]
pub struct TmxCollection {
    pub tile_width: u32,
    pub tile_height: u32,
    /// The image tiles, each with its image's `source` as written and no
    /// animation.
    pub tiles: Vec<TiledJsonTile>,
}

proof fn lemma_collection_tiles_error_persists(nodes: Seq<XmlNode>, tiles: Seq<usize>, k: int)
    requires
        0 <= k <= tiles.len(),
        spec_collection_tiles(nodes, tiles.take(k)) is Err,
    ensures
        spec_collection_tiles(nodes, tiles) == spec_collection_tiles(nodes, tiles.take(k)),
    decreases tiles.len(),
{
    if k < tiles.len() {
        assert(tiles.drop_last().take(k) =~= tiles.take(k));
        lemma_collection_tiles_error_persists(nodes, tiles.drop_last(), k);
    } else {
        assert(tiles.take(k) =~= tiles);
    }
}

/// Reads the image tile of `<tile>` element `k` (see [`spec_collection_tile`]).
fn read_collection_tile(nodes: &Vec<XmlNode>, k: usize) -> (r: Result<Option<TiledJsonTile>, TiledImportError>)
    requires
        k < nodes@.len(),
    ensures
        match spec_collection_tile(nodes@, k as int) {
            Ok(None) => r matches Ok(None),
            Ok(Some(rec)) => r matches Ok(Some(x)) && tile_record(x) == rec && x.image is Some
                && x.animation@.len() == 0,
            Err(f) => r matches Err(e) && map_failure_is(e, f),
        },
{
    let image = match first_child_element(nodes, k, "image") {
        None => {
            return Ok(None);
        },
        Some(i) => i,
    };
    let n = &nodes[k];
    let im = &nodes[image];
    let source = required_attr(im, "source")?;
    let id = required_u32_attr(n, "id")?;
    let x = optional_u32_attr(n, "x")?;
    let y = optional_u32_attr(n, "y")?;
    let imagewidth = optional_u32_attr(im, "width")?;
    let imageheight = optional_u32_attr(im, "height")?;
    let width = optional_u32_attr(n, "width")?;
    let height = optional_u32_attr(n, "height")?;
    Ok(
        Some(
            TiledJsonTile {
                id,
                image: Some(source.to_owned()),
                x,
                y,
                width,
                height,
                imagewidth,
                imageheight,
                animation: Vec::new(),
            },
        ),
    )
}

/// Reads the tile size and image tiles of image collection tileset element
/// `t` (see [`spec_tmx_collection`]).
pub fn read_tmx_collection(
    nodes: &Vec<XmlNode>,
    t: usize,
    first_gid: u32,
    source: &Option<String>,
) -> (r: Result<TmxCollection, TiledImportError>)
    requires
        t < nodes@.len(),
    ensures
        match spec_tmx_collection(nodes@, t as int, first_gid, opt_string_view(*source)) {
            Ok((w, h, records)) => r matches Ok(c) && c.tile_width == w && c.tile_height == h
                && c.tiles@.map_values(|x: TiledJsonTile| tile_record(x)) == records && forall|j: int|
                0 <= j < c.tiles@.len() ==> (#[trigger] c.tiles@[j]).image is Some
                    && c.tiles@[j].animation@.len() == 0,
            Err(f) => r matches Err(e) && map_failure_is(e, f),
        },
{
    if first_gid == 0 {
        return Err(unsupported_tileset(source, "firstgid must be greater than zero"));
    }
    let tile_width = match optional_u32_attr(&nodes[t], "tilewidth")? {
        Some(w) => w,
        None => {
            return Err(unsupported_tileset(source, "tileset is missing tilewidth"));
        },
    };
    let tile_height = match optional_u32_attr(&nodes[t], "tileheight")? {
        Some(h) => h,
        None => {
            return Err(unsupported_tileset(source, "tileset is missing tileheight"));
        },
    };
    let kids = child_elements(nodes, t, "tile");
    let mut tiles: Vec<TiledJsonTile> = Vec::new();
    let mut i: usize = 0;
    assert(kids@.take(0) =~= Seq::<usize>::empty());
    assert(tiles@.map_values(|x: TiledJsonTile| tile_record(x)) =~= Seq::<TmxTileRecord>::empty());
    assert(spec_tmx_collection(nodes@, t as int, first_gid, opt_string_view(*source)) == match spec_collection_tiles(nodes@, kids@) {
        Err(f) => Err(f),
        Ok(rs) => Ok((tile_width, tile_height, rs)),
    });
    while i < kids.len()
        invariant
            i <= kids@.len(),
            spec_tmx_collection(nodes@, t as int, first_gid, opt_string_view(*source)) == match spec_collection_tiles(nodes@, kids@) {
                Err(f) => Err(f),
                Ok(rs) => Ok((tile_width, tile_height, rs)),
            },
            kids@ == children_named(nodes@, t as int, "tile"@),
            forall|j: int| 0 <= j < kids@.len() ==> (#[trigger] kids@[j]) < nodes@.len(),
            spec_collection_tiles(nodes@, kids@.take(i as int)) == Ok::<Seq<TmxTileRecord>, MapFailure>(
                tiles@.map_values(|x: TiledJsonTile| tile_record(x)),
            ),
            forall|j: int|
                0 <= j < tiles@.len() ==> (#[trigger] tiles@[j]).image is Some
                    && tiles@[j].animation@.len() == 0,
        decreases kids.len() - i,
    {
        assert(kids@.take(i + 1).drop_last() =~= kids@.take(i as int));
        assert(kids@.take(i + 1).last() == kids@[i as int]);
        match read_collection_tile(nodes, kids[i]) {
            Err(e) => {
                proof {
                    lemma_collection_tiles_error_persists(nodes@, kids@, i + 1);
                }
                return Err(e);
            },
            Ok(None) => {},
            Ok(Some(tile)) => {
                let ghost before = tiles@;
                let ghost rec = tile_record(tile);
                tiles.push(tile);
                assert(tiles@.map_values(|x: TiledJsonTile| tile_record(x)) =~= before.map_values(
                    |x: TiledJsonTile| tile_record(x),
                ).push(rec));
            },
        }
        i = i + 1;
    }
    assert(kids@.take(i as int) =~= kids@);
    Ok(TmxCollection { tile_width, tile_height, tiles })
}

/// Every animated tile, and every tile its frames show, is below `tile_count`.
pub open spec fn anims_in_range(anims: Seq<(u32, Seq<(u32, u32)>)>, tile_count: u32) -> bool {
    forall|a: int|
        0 <= a < anims.len() ==> (#[trigger] anims[a]).0 < tile_count && forall|f: int|
            0 <= f < anims[a].1.len() ==> (#[trigger] anims[a].1[f]).0 < tile_count
}

proof fn lemma_anims_in_range(animations: Seq<TileAnimation>, tile_count: u32)
    ensures
        animations_in_range(animations, tile_count) == anims_in_range(animations_view(animations), tile_count),
{
    let anims = animations_view(animations);
    if animations_in_range(animations, tile_count) {
        assert forall|a: int| 0 <= a < anims.len() implies (#[trigger] anims[a]).0 < tile_count && forall|f: int|
            0 <= f < anims[a].1.len() ==> (#[trigger] anims[a].1[f]).0 < tile_count by {
            assert(anims[a] == animation_view(animations[a]));
            assert forall|f: int| 0 <= f < anims[a].1.len() implies (#[trigger] anims[a].1[f]).0 < tile_count by {
                assert(animations[a].frames@[f].tile_id.0 < tile_count);
            }
        }
    }
    if anims_in_range(anims, tile_count) {
        assert forall|a: int| 0 <= a < animations.len() implies (#[trigger] animations[a]).tile_id.0 < tile_count
            && forall|f: int|
            0 <= f < animations[a].frames@.len() ==> (#[trigger] animations[a].frames@[f]).tile_id.0
                < tile_count by {
            assert(anims[a] == animation_view(animations[a]));
            assert forall|f: int| 0 <= f < animations[a].frames@.len() implies (
            #[trigger] animations[a].frames@[f]).tile_id.0 < tile_count by {
                assert(anims[a].1[f].0 < tile_count);
            }
        }
    }
}

/// Builds a TMX image collection tileset from its tile size and image tiles
/// (read by [`read_tmx_collection`], their images' paths then resolved):
/// fails first when `first_gid` is 0, then when no tile has an image; then reads the tile animations of
/// tileset element `t`, which must stay below the tile count (the largest
/// tile id plus one), its tile offset, and its and its tiles' properties,
/// which come back beside the tileset. `image_size` is the size read
/// from the image file where [`tmx_image_collection_image_to_measure`]
/// asks for it.
///
/// [`tmx_image_collection_image_to_measure`]: crate::tiled::collection::tmx_image_collection_image_to_measure
pub fn build_tmx_image_collection_tileset(
    first_gid: u32,
    tile_width: u32,
    tile_height: u32,
    tiles: &Vec<TiledJsonTile>,
    image_size: Option<(u32, u32)>,
    nodes: &Vec<XmlNode>,
    t: usize,
    source: Option<String>,
) -> (r: Result<(TiledTileset, Vec<TiledProperty>, Vec<Vec<TiledProperty>>), TiledImportError>)
    requires
        forall|k: int|
            0 <= k < image_tiles(tiles@).len() ==> (#[trigger] image_tiles(tiles@)[k]).id
                < u32::MAX,
        collection_needs_image_size(tiles@, false) ==> image_size is Some,
        property_colors_split_cleanly(nodes@),
    ensures
        ({
            let src = opt_string_view(source);
            let its = image_tiles(tiles@);
            let tile_count = (max_tile_id(its) + 1) as u32;
            if first_gid == 0 {
                r matches Err(e) && is_unsupported_tileset(e, src, "firstgid must be greater than zero"@)
            } else if its.len() == 0 {
                r matches Err(e) && is_unsupported_tileset(
                    e,
                    src,
                    "only single-image tilesets are supported"@,
                )
            } else {
                match spec_tmx_animations(nodes@, t as int) {
                    Err(f) => r matches Err(e) && map_failure_is(e, f),
                    Ok(anims) => if !anims_in_range(anims, tile_count) {
                        r matches Err(e) && is_unsupported_tileset(
                            e,
                            src,
                            "tileset animation references a tile outside tilecount"@,
                        )
                    } else {
                        match spec_tile_offset(nodes@, t as int) {
                            Err(f) => r matches Err(e) && map_failure_is(e, f),
                            Ok(offset) => match spec_properties(nodes@, t as int) {
                                Err(f) => r matches Err(e) && map_failure_is(e, f),
                                Ok(props) => match spec_tile_properties(nodes@, t as int) {
                                    Err(f) => r matches Err(e) && map_failure_is(e, f),
                                    Ok(tile_props) => r matches Ok((x, p, tp)) && is_collection_tileset(
                                        x,
                                        first_gid,
                                        tile_width,
                                        tile_height,
                                        tiles@,
                                        image_size,
                                        false,
                                    ) && animations_view(x.animations@) == anims && x.tile_offset == offset
                                        && properties_view(p@) == props && table_view(tp@) == tile_props,
                                },
                            },
                        }
                    },
                }
            }
        }),
{
    if first_gid == 0 {
        return Err(unsupported_tileset(&source, "firstgid must be greater than zero"));
    }
    let mut tileset = build_collection(first_gid, tile_width, tile_height, tiles, image_size, false, &source)?;
    let animations = collect_tmx_tile_animations(nodes, t)?;
    let tile_count = tileset.tile_count;
    proof {
        lemma_anims_in_range(animations@, tile_count);
    }
    if !animations_fit(&animations, tile_count) {
        return Err(
            unsupported_tileset(&source, "tileset animation references a tile outside tilecount"),
        );
    }
    let offset = read_tmx_tile_offset(nodes, t)?;
    let properties = collect_tmx_properties(nodes, t)?;
    let tile_properties = collect_tmx_tile_properties(nodes, t)?;
    tileset.animations = animations;
    tileset.tile_offset = offset;
    Ok((tileset, properties, tile_properties))
}

} // verus!
