use crate::text::chars_of;
use crate::text::concat3;
use crate::text::is_unicode_whitespace;
use crate::text::is_whitespace;
use crate::text::parse_u32_chars;
use crate::text::spec_parse_u32;
use crate::text::str_equal;
use crate::tiled::error::Base64DecodeError;
use crate::tiled::error::TiledImportError;
use crate::tiled::error::is_unsupported;
use crate::tiled::parse::opt_string_view;
use vstd::string::StringExecFns;
use vstd::prelude::*;
use vstd::string::StrSliceExecFns;

verus! {

/// What the standard base64 decoder (alphabet `A-Z a-z 0-9 + /`, `=`
/// padding required, canonical trailing bits) gives for `input`.
pub uninterp spec fn base64_standard_decode(input: Seq<char>) -> Result<Seq<u8>, Base64DecodeError>;

/// What a zlib stream decoder gives for `input`: the inflated bytes, or the
/// text of its error where `input` is not a complete valid zlib stream.
pub uninterp spec fn zlib_inflate(input: Seq<u8>) -> Result<Seq<u8>, Seq<char>>;

/// What a gzip member decoder gives for `input`: the inflated bytes, or the
/// text of its error where `input` is not a valid gzip member.
pub uninterp spec fn gzip_inflate(input: Seq<u8>) -> Result<Seq<u8>, Seq<char>>;

/// Decodes standard base64 text with `base64::decode` (the standard engine
/// with padding). The contract claims only that the outcome, bytes or the
/// kind of error, is the same for the same characters.
#[verifier::external_body]
#[allow(deprecated)]
fn base64_decode_chars(input: &Vec<char>) -> (r: Result<Vec<u8>, Base64DecodeError>)
    ensures
        match r {
            Ok(bytes) => base64_standard_decode(input@) == Ok::<Seq<u8>, Base64DecodeError>(
                bytes@,
            ),
            Err(e) => base64_standard_decode(input@) == Err::<Seq<u8>, Base64DecodeError>(e),
        },
{
    let text: String = input.iter().collect();
    match base64::decode(text) {
        Ok(bytes) => Ok(bytes),
        Err(base64::DecodeError::InvalidByte(offset, byte)) => Err(
            Base64DecodeError::InvalidByte(offset, byte),
        ),
        Err(base64::DecodeError::InvalidLength) => Err(Base64DecodeError::InvalidLength),
        Err(base64::DecodeError::InvalidLastSymbol(offset, byte)) => Err(
            Base64DecodeError::InvalidLastSymbol(offset, byte),
        ),
        Err(base64::DecodeError::InvalidPadding) => Err(Base64DecodeError::InvalidPadding),
    }
}

/// Inflates a zlib stream with `flate2::read::ZlibDecoder`, reading to the
/// end; an error is given as its text. The contract claims only that the
/// outcome depends on the bytes alone; which streams are valid, and the
/// errors' texts, are not stated.
#[verifier::external_body]
fn zlib_decode_all(bytes: &[u8]) -> (r: Result<Vec<u8>, String>)
    ensures
        match r {
            Ok(out) => zlib_inflate(bytes@) == Ok::<Seq<u8>, Seq<char>>(out@),
            Err(text) => zlib_inflate(bytes@) == Err::<Seq<u8>, Seq<char>>(text@),
        },
{
    let mut decoded = Vec::new();
    match std::io::Read::read_to_end(&mut flate2::read::ZlibDecoder::new(bytes), &mut decoded) {
        Ok(_) => Ok(decoded),
        Err(error) => Err(error.to_string()),
    }
}

/// Inflates a gzip member with `flate2::read::GzDecoder`, reading to the
/// end; an error is given as its text. The contract claims only that the
/// outcome depends on the bytes alone; which members are valid, and the
/// errors' texts, are not stated.
#[verifier::external_body]
fn gzip_decode_all(bytes: &[u8]) -> (r: Result<Vec<u8>, String>)
    ensures
        match r {
            Ok(out) => gzip_inflate(bytes@) == Ok::<Seq<u8>, Seq<char>>(out@),
            Err(text) => gzip_inflate(bytes@) == Err::<Seq<u8>, Seq<char>>(text@),
        },
{
    let mut decoded = Vec::new();
    match std::io::Read::read_to_end(&mut flate2::read::GzDecoder::new(bytes), &mut decoded) {
        Ok(_) => Ok(decoded),
        Err(error) => Err(error.to_string()),
    }
}

/// Why the tile data of a layer could not be decoded.
pub ghost enum GidsFailure {
    Base64(Base64DecodeError),
    Inflate(Seq<char>),
    Unsupported(Seq<char>),
    Csv(Seq<char>),
    TileGidMissing,
    TileGidInvalid(Seq<char>),
}

/// The message of an invalid CSV gid `part` in layer `layer`.
pub open spec fn invalid_csv_message(layer: Seq<char>, part: Seq<char>) -> Seq<char> {
    "layer `"@ + layer + "` contains an invalid CSV gid `"@ + part + "`"@
}

/// `e` is the import error of layer `layer` for failure `f`.
pub open spec fn failure_is(e: TiledImportError, layer: Seq<char>, f: GidsFailure) -> bool {
    match f {
        GidsFailure::Base64(b) => match e {
            TiledImportError::DecodeLayerData { layer: l, source } => l@ == layer && source == b,
            _ => false,
        },
        GidsFailure::Inflate(text) => match e {
            TiledImportError::InflateLayerData { layer: l, source } => l@ == layer && source@ == text,
            _ => false,
        },
        GidsFailure::Unsupported(reason) => is_unsupported(e, layer, reason),
        GidsFailure::Csv(part) => match e {
            TiledImportError::MalformedMap(m) => m@ == invalid_csv_message(layer, part),
            _ => false,
        },
        GidsFailure::TileGidMissing => match e {
            TiledImportError::MalformedMap(m) => m@ == "<tile> is missing required `gid` attribute"@,
            _ => false,
        },
        GidsFailure::TileGidInvalid(value) => match e {
            TiledImportError::MalformedMap(m) => m@ == invalid_tile_gid_message(value),
            _ => false,
        },
    }
}

pub open spec fn invalid_tile_gid_message(value: Seq<char>) -> Seq<char> {
    "<tile> has invalid `gid` attribute `"@ + value + "`"@
}

/// `r` is the outcome `spec` for layer `layer`: the same gids, or the error
/// of the same failure.
pub open spec fn gids_outcome(
    r: Result<Vec<u32>, TiledImportError>,
    layer: Seq<char>,
    spec: Result<Seq<u32>, GidsFailure>,
) -> bool {
    match spec {
        Ok(v) => r is Ok && r->Ok_0@ == v,
        Err(f) => r is Err && failure_is(r->Err_0, layer, f),
    }
}

/// Byte-level variant of [`gids_outcome`].
pub open spec fn bytes_outcome(
    r: Result<Vec<u8>, TiledImportError>,
    layer: Seq<char>,
    spec: Result<Seq<u8>, GidsFailure>,
) -> bool {
    match spec {
        Ok(v) => r is Ok && r->Ok_0@ == v,
        Err(f) => r is Err && failure_is(r->Err_0, layer, f),
    }
}

/// A separator of CSV tile data: a comma or any Unicode whitespace.
pub open spec fn is_csv_separator(c: char) -> bool {
    c == ',' || is_unicode_whitespace(c)
}

/// Left-to-right scan of CSV text: the tokens closed so far and the token
/// being read.
pub open spec fn csv_scan(s: Seq<char>) -> (Seq<Seq<char>>, Seq<char>)
    decreases s.len(),
{
    if s.len() == 0 {
        (Seq::empty(), Seq::empty())
    } else {
        let prev = csv_scan(s.drop_last());
        let c = s.last();
        if is_csv_separator(c) {
            if prev.1.len() > 0 {
                (prev.0.push(prev.1), Seq::empty())
            } else {
                (prev.0, Seq::empty())
            }
        } else {
            (prev.0, prev.1.push(c))
        }
    }
}

/// The non-empty runs of non-separators of `s`, in order.
pub open spec fn csv_tokens(s: Seq<char>) -> Seq<Seq<char>> {
    let scan = csv_scan(s);
    if scan.1.len() > 0 {
        scan.0.push(scan.1)
    } else {
        scan.0
    }
}

/// The `u32` values of `tokens`, or the first token that is not one.
pub open spec fn parse_tokens(tokens: Seq<Seq<char>>) -> Result<Seq<u32>, Seq<char>>
    decreases tokens.len(),
{
    if tokens.len() == 0 {
        Ok(Seq::empty())
    } else {
        match parse_tokens(tokens.drop_last()) {
            Err(p) => Err(p),
            Ok(v) => match spec_parse_u32(tokens.last()) {
                Some(x) => Ok(v.push(x)),
                None => Err(tokens.last()),
            },
        }
    }
}

/// Gids of CSV tile data: every token separated by commas or whitespace,
/// parsed as a `u32`.
pub open spec fn spec_csv_gids(text: Seq<char>) -> Result<Seq<u32>, GidsFailure> {
    match parse_tokens(csv_tokens(text)) {
        Ok(v) => Ok(v),
        Err(part) => Err(GidsFailure::Csv(part)),
    }
}

pub open spec fn is_prefix<T>(a: Seq<T>, b: Seq<T>) -> bool {
    a.len() <= b.len() && forall|i: int| 0 <= i < a.len() ==> a[i] == b[i]
}

proof fn lemma_scan_done_prefix(s: Seq<char>, k: int)
    requires
        0 <= k <= s.len(),
    ensures
        is_prefix(csv_scan(s.take(k)).0, csv_scan(s).0),
    decreases s.len(),
{
    if k == s.len() {
        assert(s.take(k) =~= s);
    } else {
        let t = s.drop_last();
        assert(s.take(k) =~= t.take(k));
        lemma_scan_done_prefix(t, k);
    }
}

proof fn lemma_parse_tokens_error_persists(a: Seq<Seq<char>>, b: Seq<Seq<char>>, p: Seq<char>)
    requires
        is_prefix(a, b),
        parse_tokens(a) == Err::<Seq<u32>, Seq<char>>(p),
    ensures
        parse_tokens(b) == Err::<Seq<u32>, Seq<char>>(p),
    decreases b.len(),
{
    if b.len() == a.len() {
        assert(a =~= b);
    } else {
        lemma_parse_tokens_error_persists(a, b.drop_last(), p);
    }
}

fn csv_error(layer_name: &str, text: &str, start: usize, end: usize) -> (e: TiledImportError)
    requires
        start <= end <= text@.len(),
    ensures
        failure_is(e, layer_name@, GidsFailure::Csv(text@.subrange(start as int, end as int))),
{
    let part = text.substring_char(start, end);
    let head = concat3("layer `", layer_name, "` contains an invalid CSV gid `");
    TiledImportError::MalformedMap(concat3(head.as_str(), part, "`"))
}

/// Parses CSV tile data: gids separated by commas or whitespace.
pub fn parse_csv_gids(text: &str, layer_name: &str) -> (r: Result<Vec<u32>, TiledImportError>)
    ensures
        gids_outcome(r, layer_name@, spec_csv_gids(text@)),
{
    let chars = chars_of(text);
    let mut gids: Vec<u32> = Vec::new();
    let ghost mut done: Seq<Seq<char>> = Seq::empty();
    let mut in_token = false;
    let mut start: usize = 0;
    let mut i: usize = 0;
    assert(chars@.take(0) =~= Seq::<char>::empty());
    while i < chars.len()
        invariant
            chars@ == text@,
            i <= chars.len(),
            start <= i,
            csv_scan(chars@.take(i as int)).0 == done,
            csv_scan(chars@.take(i as int)).1 == (if in_token {
                chars@.subrange(start as int, i as int)
            } else {
                Seq::<char>::empty()
            }),
            in_token ==> start < i,
            parse_tokens(done) == Ok::<Seq<u32>, Seq<char>>(gids@),
        decreases chars.len() - i,
    {
        let c = chars[i];
        let ghost prefix = chars@.take(i as int);
        assert(chars@.take(i + 1).drop_last() =~= prefix);
        assert(chars@.take(i + 1).last() == c);
        if c == ',' || is_whitespace(c) {
            if in_token {
                let ghost token = chars@.subrange(start as int, i as int);
                assert(done.push(token).drop_last() =~= done);
                match parse_u32_chars(&chars, start, i) {
                    Some(value) => {
                        gids.push(value);
                        proof {
                            done = done.push(token);
                        }
                    },
                    None => {
                        proof {
                            let closed = done.push(token);
                            assert(parse_tokens(closed) == Err::<Seq<u32>, Seq<char>>(token));
                            lemma_scan_done_prefix(chars@, i + 1);
                            assert(chars@.take(chars@.len() as int) =~= chars@);
                            lemma_parse_tokens_error_persists(closed, csv_tokens(chars@), token);
                        }
                        return Err(csv_error(layer_name, text, start, i));
                    },
                }
            }
            in_token = false;
        } else {
            if !in_token {
                start = i;
                in_token = true;
                assert(chars@.subrange(start as int, i + 1) =~= Seq::<char>::empty().push(c));
            } else {
                assert(chars@.subrange(start as int, i + 1) =~= chars@.subrange(
                    start as int,
                    i as int,
                ).push(c));
            }
        }
        i = i + 1;
    }
    assert(chars@.take(i as int) =~= chars@);
    if in_token {
        let ghost token = chars@.subrange(start as int, i as int);
        assert(done.push(token).drop_last() =~= done);
        match parse_u32_chars(&chars, start, i) {
            Some(value) => {
                gids.push(value);
            },
            None => {
                return Err(csv_error(layer_name, text, start, i));
            },
        }
    }
    Ok(gids)
}

/// Gid `i` of little-endian tile data: bytes `4i` to `4i + 3`, lowest first.
pub open spec fn le_word(b: Seq<u8>, i: int) -> int {
    b[4 * i] + b[4 * i + 1] * 0x100 + b[4 * i + 2] * 0x1_0000 + b[4 * i + 3] * 0x100_0000
}

pub open spec fn spec_le_gids(b: Seq<u8>) -> Result<Seq<u32>, GidsFailure> {
    if b.len() % 4 != 0 {
        Err(GidsFailure::Unsupported("base64 tile data byte length must be divisible by 4"@))
    } else {
        Ok(Seq::new(b.len() / 4, |i: int| le_word(b, i) as u32))
    }
}

/// Reads tile data as little-endian `u32` gids.
pub fn decode_little_endian_gids(bytes: &[u8], layer_name: &str) -> (r: Result<
    Vec<u32>,
    TiledImportError,
>)
    ensures
        gids_outcome(r, layer_name@, spec_le_gids(bytes@)),
{
    if bytes.len() % 4 != 0 {
        return Err(
            TiledImportError::UnsupportedLayerData {
                layer: layer_name.to_owned(),
                reason: "base64 tile data byte length must be divisible by 4",
            },
        );
    }
    let count = bytes.len() / 4;
    let mut gids: Vec<u32> = Vec::new();
    let mut k: usize = 0;
    while k < count
        invariant
            count == bytes@.len() / 4,
            bytes@.len() % 4 == 0,
            bytes@.len() == bytes.len(),
            k <= count,
            gids@.len() == k,
            forall|j: int| 0 <= j < k ==> gids@[j] == le_word(bytes@, j) as u32,
        decreases count - k,
    {
        assert(4 * k + 4 <= bytes@.len());
        let b0 = bytes[4 * k] as u32;
        let b1 = bytes[4 * k + 1] as u32;
        let b2 = bytes[4 * k + 2] as u32;
        let b3 = bytes[4 * k + 3] as u32;
        let word = b0 + b1 * 0x100 + b2 * 0x1_0000 + b3 * 0x100_0000;
        gids.push(word);
        k = k + 1;
    }
    assert(gids@ =~= Seq::new(bytes@.len() / 4, |i: int| le_word(bytes@, i) as u32));
    Ok(gids)
}

/// Inflates zlib-compressed tile data.
pub fn decompress_zlib(bytes: &[u8], layer_name: &str) -> (r: Result<Vec<u8>, TiledImportError>)
    ensures
        bytes_outcome(
            r,
            layer_name@,
            match zlib_inflate(bytes@) {
                Ok(out) => Ok(out),
                Err(text) => Err(GidsFailure::Inflate(text)),
            },
        ),
{
    match zlib_decode_all(bytes) {
        Ok(out) => Ok(out),
        Err(source) => Err(TiledImportError::InflateLayerData { layer: layer_name.to_owned(), source }),
    }
}

/// Inflates gzip-compressed tile data.
pub fn decompress_gzip(bytes: &[u8], layer_name: &str) -> (r: Result<Vec<u8>, TiledImportError>)
    ensures
        bytes_outcome(
            r,
            layer_name@,
            match gzip_inflate(bytes@) {
                Ok(out) => Ok(out),
                Err(text) => Err(GidsFailure::Inflate(text)),
            },
        ),
{
    match gzip_decode_all(bytes) {
        Ok(out) => Ok(out),
        Err(source) => Err(TiledImportError::InflateLayerData { layer: layer_name.to_owned(), source }),
    }
}

/// `s` without its Unicode whitespace.
pub open spec fn strip_whitespace(s: Seq<char>) -> Seq<char>
    decreases s.len(),
{
    if s.len() == 0 {
        Seq::empty()
    } else if is_unicode_whitespace(s.last()) {
        strip_whitespace(s.drop_last())
    } else {
        strip_whitespace(s.drop_last()).push(s.last())
    }
}

fn strip_whitespace_chars(text: &str) -> (r: Vec<char>)
    ensures
        r@ == strip_whitespace(text@),
{
    let chars = chars_of(text);
    let mut out: Vec<char> = Vec::new();
    let mut i: usize = 0;
    assert(chars@.take(0) =~= Seq::<char>::empty());
    while i < chars.len()
        invariant
            chars@ == text@,
            i <= chars.len(),
            out@ == strip_whitespace(chars@.take(i as int)),
        decreases chars.len() - i,
    {
        let c = chars[i];
        assert(chars@.take(i + 1).drop_last() =~= chars@.take(i as int));
        assert(chars@.take(i + 1).last() == c);
        if !is_whitespace(c) {
            out.push(c);
        }
        i = i + 1;
    }
    assert(chars@.take(i as int) =~= chars@);
    out
}

/// The bytes of decoded tile data after the layer's compression is undone.
pub open spec fn spec_inflate(bytes: Seq<u8>, compression: Option<Seq<char>>) -> Result<
    Seq<u8>,
    GidsFailure,
> {
    match compression {
        None => Ok(bytes),
        Some(c) => if c == ""@ {
            Ok(bytes)
        } else if c == "zlib"@ {
            match zlib_inflate(bytes) {
                Ok(out) => Ok(out),
                Err(text) => Err(GidsFailure::Inflate(text)),
            }
        } else if c == "gzip"@ {
            match gzip_inflate(bytes) {
                Ok(out) => Ok(out),
                Err(text) => Err(GidsFailure::Inflate(text)),
            }
        } else {
            Err(GidsFailure::Unsupported("only zlib and gzip compressed tile data are supported"@))
        },
    }
}

/// Gids of base64 tile data: whitespace dropped, base64 decoded, the
/// compression undone, then read as little-endian words.
pub open spec fn spec_base64_gids(text: Seq<char>, compression: Option<Seq<char>>) -> Result<
    Seq<u32>,
    GidsFailure,
> {
    match base64_standard_decode(strip_whitespace(text)) {
        Err(e) => Err(GidsFailure::Base64(e)),
        Ok(bytes) => match spec_inflate(bytes, compression) {
            Err(f) => Err(f),
            Ok(raw) => spec_le_gids(raw),
        },
    }
}

pub open spec fn opt_view(s: Option<&str>) -> Option<Seq<char>> {
    match s {
        Some(v) => Some(v@),
        None => None,
    }
}

/// Decodes base64 tile data, compressed with zlib or gzip or not at all.
pub fn decode_base64_gids(text: &str, compression: Option<&str>, layer_name: &str) -> (r: Result<
    Vec<u32>,
    TiledImportError,
>)
    ensures
        gids_outcome(r, layer_name@, spec_base64_gids(text@, opt_view(compression))),
{
    let compact = strip_whitespace_chars(text);
    let bytes = match base64_decode_chars(&compact) {
        Ok(bytes) => bytes,
        Err(source) => {
            return Err(TiledImportError::DecodeLayerData { layer: layer_name.to_owned(), source });
        },
    };
    let raw = match compression {
        None => bytes,
        Some(c) => {
            if str_equal(c, "") {
                bytes
            } else if str_equal(c, "zlib") {
                decompress_zlib(&bytes, layer_name)?
            } else if str_equal(c, "gzip") {
                decompress_gzip(&bytes, layer_name)?
            } else {
                return Err(
                    TiledImportError::UnsupportedLayerData {
                        layer: layer_name.to_owned(),
                        reason: "only zlib and gzip compressed tile data are supported",
                    },
                );
            }
        },
    };
    decode_little_endian_gids(&raw, layer_name)
}

/// Tile data of a JSON layer or chunk: a plain array of gids, or encoded text.
#[derive(Debug)]
pub enum TiledLayerData {
    Array(Vec<u32>),
    Encoded(String),
}

/// Gids of the tile data of a JSON layer, as its encoding says.
pub open spec fn spec_json_gids(
    data: TiledLayerData,
    encoding: Option<Seq<char>>,
    compression: Option<Seq<char>>,
) -> Result<Seq<u32>, GidsFailure> {
    match data {
        TiledLayerData::Array(values) => Ok(values@),
        TiledLayerData::Encoded(encoded) => if encoding == Some("base64"@) {
            spec_base64_gids(encoded@, compression)
        } else if encoding == Some("csv"@) {
            spec_csv_gids(encoded@)
        } else {
            Err(
                GidsFailure::Unsupported(
                    "encoded JSON tile data requires encoding `csv` or `base64`"@,
                ),
            )
        },
    }
}

/// Decodes the tile data of a JSON layer or chunk.
pub fn decode_json_gids(
    data: &TiledLayerData,
    layer_name: &str,
    encoding: Option<&str>,
    compression: Option<&str>,
) -> (r: Result<Vec<u32>, TiledImportError>)
    ensures
        gids_outcome(r, layer_name@, spec_json_gids(*data, opt_view(encoding), opt_view(compression))),
{
    match data {
        TiledLayerData::Array(values) => {
            let mut out: Vec<u32> = Vec::new();
            let mut i: usize = 0;
            while i < values.len()
                invariant
                    i <= values.len(),
                    out@ == values@.take(i as int),
                decreases values.len() - i,
            {
                out.push(values[i]);
                assert(values@.take(i + 1) =~= values@.take(i as int).push(values@[i as int]));
                i = i + 1;
            }
            assert(values@.take(i as int) =~= values@);
            Ok(out)
        },
        TiledLayerData::Encoded(encoded) => {
            let is_base64 = match encoding {
                Some(e) => str_equal(e, "base64"),
                None => false,
            };
            let is_csv = match encoding {
                Some(e) => str_equal(e, "csv"),
                None => false,
            };
            if is_base64 {
                decode_base64_gids(encoded.as_str(), compression, layer_name)
            } else if is_csv {
                parse_csv_gids(encoded.as_str(), layer_name)
            } else {
                Err(
                    TiledImportError::UnsupportedLayerData {
                        layer: layer_name.to_owned(),
                        reason: "encoded JSON tile data requires encoding `csv` or `base64`",
                    },
                )
            }
        },
    }
}

/// The text and `<tile>` children of a TMX `<data>` or `<chunk>` element:
/// the element's text, and each tile child's `gid` attribute, in order.
#[derive(Debug)]
pub struct TmxTileData {
    pub text: Option<String>,
    pub tile_gids: Vec<Option<String>>,
}

/// The gid of a `<tile>`, or why it has none.
pub open spec fn spec_tile_gid(gid: Option<Seq<char>>) -> Result<u32, GidsFailure> {
    match gid {
        None => Err(GidsFailure::TileGidMissing),
        Some(s) => match spec_parse_u32(s) {
            Some(v) => Ok(v),
            None => Err(GidsFailure::TileGidInvalid(s)),
        },
    }
}

/// The `gid` attributes of `<tile>` children as plain values.
pub open spec fn gid_views(gids: Seq<Option<String>>) -> Seq<Option<Seq<char>>> {
    gids.map_values(|g: Option<String>| opt_string_view(g))
}

/// The gids of `<tile>` children, or the failure of the first bad one.
pub open spec fn spec_tile_gids(gids: Seq<Option<Seq<char>>>) -> Result<Seq<u32>, GidsFailure>
    decreases gids.len(),
{
    if gids.len() == 0 {
        Ok(Seq::empty())
    } else {
        match spec_tile_gids(gids.drop_last()) {
            Err(f) => Err(f),
            Ok(v) => match spec_tile_gid(gids.last()) {
                Err(f) => Err(f),
                Ok(g) => Ok(v.push(g)),
            },
        }
    }
}

/// The gids of TMX tile data in `encoding` (CSV, base64, or none: one
/// `<tile>` element per cell, whose `gid` attributes are `gids`), which must
/// be `expected_len` long. `text` is the data element's text.
pub open spec fn spec_tmx_gids(
    text: Option<Seq<char>>,
    gids: Seq<Option<Seq<char>>>,
    expected_len: int,
    encoding: Option<Seq<char>>,
    compression: Option<Seq<char>>,
) -> Result<Seq<u32>, GidsFailure> {
    let text = match text {
        Some(t) => t,
        None => Seq::<char>::empty(),
    };
    let gids = if encoding == Some("csv"@) {
        spec_csv_gids(text)
    } else if encoding == Some("base64"@) {
        spec_base64_gids(text, compression)
    } else if encoding is Some {
        Err(GidsFailure::Unsupported("only CSV and base64 TMX tile data are supported"@))
    } else if compression is Some {
        Err(GidsFailure::Unsupported("compressed tile data requires base64 encoding"@))
    } else {
        spec_tile_gids(gids)
    };
    match gids {
        Err(f) => Err(f),
        Ok(v) => if v.len() != expected_len {
            Err(GidsFailure::Unsupported("tile data length does not match width * height"@))
        } else {
            Ok(v)
        },
    }
}

/// Reads a `<tile>`'s `gid` attribute.
pub fn required_tile_gid(gid: Option<&str>) -> (r: Result<u32, TiledImportError>)
    ensures
        match spec_tile_gid(opt_view(gid)) {
            Ok(v) => r == Ok::<u32, TiledImportError>(v),
            Err(f) => r matches Err(e) && failure_is(e, Seq::empty(), f),
        },
{
    match gid {
        None => Err(TiledImportError::MalformedMap(String::from_str("<tile> is missing required `gid` attribute"))),
        Some(value) => {
            let chars = chars_of(value);
            match parse_u32_chars(&chars, 0, chars.len()) {
                Some(v) => {
                    assert(chars@.subrange(0, chars@.len() as int) =~= value@);
                    Ok(v)
                },
                None => {
                    assert(chars@.subrange(0, chars@.len() as int) =~= value@);
                    Err(TiledImportError::MalformedMap(concat3("<tile> has invalid `gid` attribute `", value, "`")))
                },
            }
        },
    }
}

fn tile_gids(gids: &Vec<Option<String>>) -> (r: Result<Vec<u32>, TiledImportError>)
    ensures
        gids_outcome(r, Seq::empty(), spec_tile_gids(gid_views(gids@))),
{
    let mut values: Vec<u32> = Vec::new();
    let mut i: usize = 0;
    assert(gid_views(gids@).take(0) =~= Seq::<Option<Seq<char>>>::empty());
    while i < gids.len()
        invariant
            i <= gids.len(),
            spec_tile_gids(gid_views(gids@).take(i as int)) == Ok::<Seq<u32>, GidsFailure>(values@),
        decreases gids.len() - i,
    {
        assert(gid_views(gids@).take(i + 1).drop_last() =~= gid_views(gids@).take(i as int));
        assert(gid_views(gids@).take(i + 1).last() == opt_string_view(gids@[i as int]));
        let gid = match &gids[i] {
            Some(s) => Some(s.as_str()),
            None => None,
        };
        assert(opt_view(gid) == opt_string_view(gids@[i as int]));
        match required_tile_gid(gid) {
            Ok(v) => {
                values.push(v);
            },
            Err(e) => {
                proof {
                    lemma_tile_gids_error_persists(gid_views(gids@), i + 1);
                }
                return Err(e);
            },
        }
        i = i + 1;
    }
    assert(gid_views(gids@).take(i as int) =~= gid_views(gids@));
    Ok(values)
}

proof fn lemma_tile_gids_failure_kind(gids: Seq<Option<Seq<char>>>)
    ensures
        spec_tile_gids(gids) matches Err(f) ==> (f is TileGidMissing || f is TileGidInvalid),
    decreases gids.len(),
{
    if gids.len() > 0 {
        lemma_tile_gids_failure_kind(gids.drop_last());
    }
}

proof fn lemma_tile_gids_error_persists(gids: Seq<Option<Seq<char>>>, k: int)
    requires
        0 <= k <= gids.len(),
        spec_tile_gids(gids.take(k)) is Err,
    ensures
        spec_tile_gids(gids) == spec_tile_gids(gids.take(k)),
    decreases gids.len(),
{
    if k < gids.len() {
        assert(gids.drop_last().take(k) =~= gids.take(k));
        lemma_tile_gids_error_persists(gids.drop_last(), k);
    } else {
        assert(gids.take(k) =~= gids);
    }
}

/// Decodes the tile data of a TMX layer or chunk: CSV or base64 text, or
/// one `<tile>` element per cell; it must hold `expected_len` gids.
pub fn decode_tmx_gids(
    data: &TmxTileData,
    layer_name: &str,
    expected_len: usize,
    encoding: Option<&str>,
    compression: Option<&str>,
) -> (r: Result<Vec<u32>, TiledImportError>)
    ensures
        gids_outcome(
            r,
            layer_name@,
            spec_tmx_gids(
                opt_string_view(data.text),
                gid_views(data.tile_gids@),
                expected_len as int,
                opt_view(encoding),
                opt_view(compression),
            ),
        ),
{
    let text: &str = match &data.text {
        Some(t) => t.as_str(),
        None => "",
    };
    proof {
        reveal_strlit("");
    }
    let is_csv = match encoding {
        Some(e) => str_equal(e, "csv"),
        None => false,
    };
    let is_base64 = match encoding {
        Some(e) => str_equal(e, "base64"),
        None => false,
    };
    let gids = if is_csv {
        parse_csv_gids(text, layer_name)?
    } else if is_base64 {
        decode_base64_gids(text, compression, layer_name)?
    } else if encoding.is_some() {
        return Err(
            TiledImportError::UnsupportedLayerData {
                layer: layer_name.to_owned(),
                reason: "only CSV and base64 TMX tile data are supported",
            },
        );
    } else if compression.is_some() {
        return Err(
            TiledImportError::UnsupportedLayerData {
                layer: layer_name.to_owned(),
                reason: "compressed tile data requires base64 encoding",
            },
        );
    } else {
        match tile_gids(&data.tile_gids) {
            Ok(v) => v,
            Err(e) => {
                proof {
                    lemma_tile_gids_failure_kind(gid_views(data.tile_gids@));
                }
                return Err(e);
            },
        }
    };
    if gids.len() != expected_len {
        return Err(
            TiledImportError::UnsupportedLayerData {
                layer: layer_name.to_owned(),
                reason: "tile data length does not match width * height",
            },
        );
    }
    Ok(gids)
}

} // verus!
