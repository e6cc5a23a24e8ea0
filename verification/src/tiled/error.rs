use crate::text::decimal;
use crate::text::decimal_string;
use crate::tiled::color::is_malformed;
use crate::tiled::data::failure_is;
use crate::tiled::data::GidsFailure;
use vstd::prelude::*;
use vstd::string::StringExecFns;

verus! {

/// Why base64 text could not be decoded, one variant per kind of failure of
/// the standard base64 decoder.
#[derive(Clone, Copy, Debug, PartialEq, Eq, Structural)]
pub enum Base64DecodeError {
    /// An invalid byte, with its offset, was found in the input.
    InvalidByte(usize, u8),
    /// The length of the input is invalid.
    InvalidLength,
    /// The last symbol, with its offset, has nonzero bits that would be discarded.
    InvalidLastSymbol(usize, u8),
    /// Padding was absent, malformed or not canonical.
    InvalidPadding,
}

/// Errors of importing a Tiled map.
#[derive(Debug)]
#[allow(inconsistent_fields)]
pub enum TiledImportError {
    /// The base64 tile data of a layer is not valid base64.
    DecodeLayerData { layer: String, source: Base64DecodeError },
    /// The compressed tile data of a layer could not be inflated; `source`
    /// is the decoder's error text.
    InflateLayerData { layer: String, source: String },
    /// A TMX file is not well-formed XML; the parser's error text.
    Xml(String),
    /// The map is not well-formed.
    MalformedMap(String),
    /// The map's orientation is none of the four that Tiled has.
    UnsupportedOrientation(String),
    /// Tile data of a layer, or a map attribute, that the importer does not support.
    UnsupportedLayerData { layer: String, reason: &'static str },
    /// A tileset that the importer does not support.
    UnsupportedTileset { source: Option<String>, reason: &'static str },
    /// The map has no tileset.
    MissingTileset,
    /// A tile's global id belongs to no tileset of the map.
    TileGidOutOfRange { gid: u32 },
}

/// `e` is an `UnsupportedLayerData` error of layer `layer` for `reason`.
pub open spec fn is_unsupported(e: TiledImportError, layer: Seq<char>, reason: Seq<char>) -> bool {
    match e {
        TiledImportError::UnsupportedLayerData { layer: l, reason: r } => l@ == layer && r@
            == reason,
        _ => false,
    }
}

/// `e` is an `UnsupportedTileset` error of tileset file `source` for `reason`.
pub open spec fn is_unsupported_tileset(
    e: TiledImportError,
    source: Option<Seq<char>>,
    reason: Seq<char>,
) -> bool {
    match e {
        TiledImportError::UnsupportedTileset { source: s, reason: r } => r@ == reason && match s {
            Some(v) => source == Some(v@),
            None => source is None,
        },
        _ => false,
    }
}

/// The message of a base64 decoding error, as the decoder words it.
pub open spec fn base64_error_message(e: Base64DecodeError) -> Seq<char> {
    match e {
        Base64DecodeError::InvalidByte(offset, byte) => "Invalid byte "@ + decimal(byte as nat)
            + ", offset "@ + decimal(offset as nat) + "."@,
        Base64DecodeError::InvalidLength => "Encoded text cannot have a 6-bit remainder."@,
        Base64DecodeError::InvalidLastSymbol(offset, byte) => "Invalid last symbol "@ + decimal(
            byte as nat,
        ) + ", offset "@ + decimal(offset as nat) + "."@,
        Base64DecodeError::InvalidPadding => "Invalid padding"@,
    }
}

/// The message of an import error.
pub open spec fn import_error_message(e: TiledImportError) -> Seq<char> {
    match e {
        TiledImportError::DecodeLayerData { layer, source } =>
            "failed to decode base64 tile data for `"@ + layer@ + "`: "@ + base64_error_message(source),
        TiledImportError::InflateLayerData { layer, source } =>
            "failed to decompress tile data for `"@ + layer@ + "`: "@ + source@,
        TiledImportError::Xml(error) => "failed to parse Tiled TMX: "@ + error@,
        TiledImportError::MalformedMap(reason) => "malformed Tiled map: "@ + reason@,
        TiledImportError::UnsupportedOrientation(orientation) => "unsupported Tiled orientation `"@
            + orientation@ + "`"@,
        TiledImportError::UnsupportedLayerData { layer, reason } => "unsupported Tiled layer `"@
            + layer@ + "`: "@ + reason@,
        TiledImportError::UnsupportedTileset { source, reason } => match source {
            Some(path) => "unsupported Tiled tileset "@ + path@ + ": "@ + reason@,
            None => "unsupported embedded Tiled tileset: "@ + reason@,
        },
        TiledImportError::MissingTileset => "Tiled map does not contain a usable tileset"@,
        TiledImportError::TileGidOutOfRange { gid } => "Tiled tile gid "@ + decimal(gid as nat)
            + " does not belong to the imported tileset"@,
    }
}

impl Base64DecodeError {
    /// The error's message, as the decoder's `Display` shows it.
    pub fn message(&self) -> (r: String)
        ensures
            r@ == base64_error_message(*self),
    {
        match *self {
            Base64DecodeError::InvalidByte(offset, byte) => {
                let mut s = String::from_str("Invalid byte ");
                let b = decimal_string(byte as u64);
                s.append(b.as_str());
                s.append(", offset ");
                let o = decimal_string(offset as u64);
                s.append(o.as_str());
                s.append(".");
                s
            },
            Base64DecodeError::InvalidLength => String::from_str(
                "Encoded text cannot have a 6-bit remainder.",
            ),
            Base64DecodeError::InvalidLastSymbol(offset, byte) => {
                let mut s = String::from_str("Invalid last symbol ");
                let b = decimal_string(byte as u64);
                s.append(b.as_str());
                s.append(", offset ");
                let o = decimal_string(offset as u64);
                s.append(o.as_str());
                s.append(".");
                s
            },
            Base64DecodeError::InvalidPadding => String::from_str("Invalid padding"),
        }
    }
}

impl TiledImportError {
    /// The error's message, as `Display` shows it.
    pub fn message(&self) -> (r: String)
        ensures
            r@ == import_error_message(*self),
    {
        match self {
            TiledImportError::DecodeLayerData { layer, source } => {
                let mut s = String::from_str("failed to decode base64 tile data for `");
                s.append(layer.as_str());
                s.append("`: ");
                let m = source.message();
                s.append(m.as_str());
                s
            },
            TiledImportError::InflateLayerData { layer, source } => {
                let mut s = String::from_str("failed to decompress tile data for `");
                s.append(layer.as_str());
                s.append("`: ");
                s.append(source.as_str());
                s
            },
            TiledImportError::Xml(error) => {
                let mut s = String::from_str("failed to parse Tiled TMX: ");
                s.append(error.as_str());
                s
            },
            TiledImportError::MalformedMap(reason) => {
                let mut s = String::from_str("malformed Tiled map: ");
                s.append(reason.as_str());
                s
            },
            TiledImportError::UnsupportedOrientation(orientation) => {
                let mut s = String::from_str("unsupported Tiled orientation `");
                s.append(orientation.as_str());
                s.append("`");
                s
            },
            TiledImportError::UnsupportedLayerData { layer, reason } => {
                let mut s = String::from_str("unsupported Tiled layer `");
                s.append(layer.as_str());
                s.append("`: ");
                s.append(reason);
                s
            },
            TiledImportError::UnsupportedTileset { source, reason } => match source {
                Some(path) => {
                    let mut s = String::from_str("unsupported Tiled tileset ");
                    s.append(path.as_str());
                    s.append(": ");
                    s.append(reason);
                    s
                },
                None => {
                    let mut s = String::from_str("unsupported embedded Tiled tileset: ");
                    s.append(reason);
                    s
                },
            },
            TiledImportError::MissingTileset => String::from_str(
                "Tiled map does not contain a usable tileset",
            ),
            TiledImportError::TileGidOutOfRange { gid } => {
                let mut s = String::from_str("Tiled tile gid ");
                let g = decimal_string(*gid as u64);
                s.append(g.as_str());
                s.append(" does not belong to the imported tileset");
                s
            },
        }
    }
}

/// Why a map could not be read.
pub ghost enum MapFailure {
    /// The map is malformed; the message.
    Malformed(Seq<char>),
    /// The tile data of a layer, named first, could not be read.
    Data(Seq<char>, GidsFailure),
    /// The map's orientation is none that Tiled has.
    Orientation(Seq<char>),
    /// A tileset, from the file named first if any, is not supported; the reason.
    Tileset(Option<Seq<char>>, Seq<char>),
}

/// `e` is the import error for failure `f`.
pub open spec fn map_failure_is(e: TiledImportError, f: MapFailure) -> bool {
    match f {
        MapFailure::Malformed(m) => is_malformed(e, m),
        MapFailure::Data(layer, g) => failure_is(e, layer, g),
        MapFailure::Orientation(o) => e matches TiledImportError::UnsupportedOrientation(v) && v@ == o,
        MapFailure::Tileset(source, reason) => is_unsupported_tileset(e, source, reason),
    }
}

/// An attribute reader's failure as a map failure.
pub open spec fn malformed<T>(r: Result<T, Seq<char>>) -> Result<T, MapFailure> {
    match r {
        Ok(v) => Ok(v),
        Err(m) => Err(MapFailure::Malformed(m)),
    }
}

pub open spec fn map_outcome<T>(r: Result<T, TiledImportError>, s: Result<T, MapFailure>) -> bool {
    match s {
        Ok(v) => r matches Ok(x) && x == v,
        Err(f) => r matches Err(e) && map_failure_is(e, f),
    }
}

} // verus!
