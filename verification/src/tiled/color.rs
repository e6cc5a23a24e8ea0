//! Hex colors of Tiled files: tileset transparent colors (`RRGGBB`) and
//! color properties (`#RRGGBB` or `#AARRGGBB`).
use crate::text::chars_of;
use crate::text::concat3;
use crate::text::is_unicode_whitespace;
use crate::text::is_whitespace;
use vstd::string::StrSliceExecFns;
use crate::tiled::error::TiledImportError;
use vstd::prelude::*;
use vstd::utf8::encode_utf8;
use vstd::utf8::is_char_boundary;

verus! {

/// Value of an ASCII hex digit byte.
pub open spec fn hex_digit_value(b: u8) -> Option<u8> {
    if 0x30 <= b <= 0x39 {
        Some((b - 0x30) as u8)
    } else if 0x61 <= b <= 0x66 {
        Some((b - 0x61 + 10) as u8)
    } else if 0x41 <= b <= 0x46 {
        Some((b - 0x41 + 10) as u8)
    } else {
        None
    }
}

/// What `u8::from_str_radix(_, 16)` gives on the two bytes `x`, `y`: an
/// optional `+` and one digit, or two digits.
pub open spec fn hex_pair(x: u8, y: u8) -> Option<u8> {
    match (hex_digit_value(x), hex_digit_value(y)) {
        (Some(h), Some(l)) => Some((h * 16 + l) as u8),
        (None, Some(l)) => if x == 0x2b {
            Some(l)
        } else {
            None
        },
        _ => None,
    }
}

/// The hex pair at bytes `2k` and `2k + 1` of `b`.
pub open spec fn pair_at(b: Seq<u8>, k: int) -> Option<u8> {
    hex_pair(b[2 * k], b[2 * k + 1])
}

/// `s` without its leading Unicode whitespace.
pub open spec fn trim_start_ws(s: Seq<char>) -> Seq<char>
    decreases s.len(),
{
    if s.len() > 0 && is_unicode_whitespace(s[0]) {
        trim_start_ws(s.drop_first())
    } else {
        s
    }
}

/// `s` without its trailing Unicode whitespace.
pub open spec fn trim_end_ws(s: Seq<char>) -> Seq<char>
    decreases s.len(),
{
    if s.len() > 0 && is_unicode_whitespace(s.last()) {
        trim_end_ws(s.drop_last())
    } else {
        s
    }
}

/// `s` without its leading `#` characters.
pub open spec fn trim_hashes(s: Seq<char>) -> Seq<char>
    decreases s.len(),
{
    if s.len() > 0 && s[0] == '#' {
        trim_hashes(s.drop_first())
    } else {
        s
    }
}

/// The hex digits of a transparent color attribute: trimmed of whitespace,
/// then of leading `#`s.
pub open spec fn transparent_color_text(s: Seq<char>) -> Seq<char> {
    trim_hashes(trim_end_ws(trim_start_ws(s)))
}

/// Bytes `2`, `4`, ... (below `2 * pairs`) of the UTF-8 encoding of `t`
/// start characters, so that cutting `t` into byte pairs does not split a
/// character.
pub open spec fn pairs_on_char_boundaries(t: Seq<char>, pairs: int) -> bool {
    forall|i: int|
        0 < i < 2 * pairs && i % 2 == 0 ==> #[trigger] is_char_boundary(encode_utf8(t), i)
}

/// Cutting six bytes of hex digits `t` into pairs does not split a character.
pub open spec fn transparent_text_splits_cleanly(t: Seq<char>) -> bool {
    encode_utf8(t).len() == 6 ==> pairs_on_char_boundaries(t, 3)
}

pub open spec fn transparent_length_message(t: Seq<char>) -> Seq<char> {
    "transparent color `"@ + t + "` must be a 6-digit RGB hex value"@
}

pub open spec fn transparent_invalid_message(t: Seq<char>) -> Seq<char> {
    "transparent color `"@ + t + "` is invalid"@
}

/// `e` is a malformed-map error with message `m`.
pub open spec fn is_malformed(e: TiledImportError, m: Seq<char>) -> bool {
    match e {
        TiledImportError::MalformedMap(s) => s@ == m,
        _ => false,
    }
}

/// Bounds `(start, end)` of `transparent_color_text(chars)` inside `chars`.
fn transparent_text_bounds(chars: &Vec<char>) -> (r: (usize, usize))
    ensures
        r.0 <= r.1 <= chars.len(),
        chars@.subrange(r.0 as int, r.1 as int) == transparent_color_text(chars@),
{
    let n = chars.len();
    let mut i: usize = 0;
    assert(chars@.subrange(0, n as int) =~= chars@);
    while i < n && is_whitespace(chars[i])
        invariant
            i <= n == chars.len(),
            trim_start_ws(chars@) == trim_start_ws(chars@.subrange(i as int, n as int)),
        decreases n - i,
    {
        assert(chars@.subrange(i as int, n as int).drop_first() =~= chars@.subrange(
            i + 1,
            n as int,
        ));
        i = i + 1;
    }
    let mut j: usize = n;
    while j > i && is_whitespace(chars[j - 1])
        invariant
            i <= j <= n == chars.len(),
            trim_end_ws(chars@.subrange(i as int, n as int)) == trim_end_ws(
                chars@.subrange(i as int, j as int),
            ),
        decreases j - i,
    {
        assert(chars@.subrange(i as int, j as int).drop_last() =~= chars@.subrange(
            i as int,
            j - 1,
        ));
        j = j - 1;
    }
    let mut k: usize = i;
    while k < j && chars[k] == '#'
        invariant
            i <= k <= j <= n == chars.len(),
            trim_hashes(chars@.subrange(i as int, j as int)) == trim_hashes(
                chars@.subrange(k as int, j as int),
            ),
        decreases j - k,
    {
        assert(chars@.subrange(k as int, j as int).drop_first() =~= chars@.subrange(
            k + 1,
            j as int,
        ));
        k = k + 1;
    }
    (k, j)
}

fn hex_digit(b: u8) -> (r: Option<u8>)
    ensures
        r == hex_digit_value(b),
{
    if 0x30 <= b && b <= 0x39 {
        Some(b - 0x30)
    } else if 0x61 <= b && b <= 0x66 {
        Some(b - 0x61 + 10)
    } else if 0x41 <= b && b <= 0x46 {
        Some(b - 0x41 + 10)
    } else {
        None
    }
}

/// Parses two bytes as `u8::from_str_radix(_, 16)` does.
pub fn parse_hex_pair(x: u8, y: u8) -> (r: Option<u8>)
    ensures
        r == hex_pair(x, y),
{
    match (hex_digit(x), hex_digit(y)) {
        (Some(h), Some(l)) => Some(h * 16 + l),
        (None, Some(l)) => if x == 0x2b {
            Some(l)
        } else {
            None
        },
        _ => None,
    }
}

/// `r` is what the transparent color with hex digits `t` gives: its three
/// channels, or the error for a length other than six bytes or for a pair
/// that is not hex.
pub open spec fn transparent_color_outcome(
    t: Seq<char>,
    r: Result<Option<[u8; 3]>, TiledImportError>,
) -> bool {
    let b = encode_utf8(t);
    if b.len() != 6 {
        r matches Err(e) && is_malformed(e, transparent_length_message(t))
    } else if pair_at(b, 0) is Some && pair_at(b, 1) is Some && pair_at(b, 2) is Some {
        r matches Ok(Some(c)) && c@ == seq![
            pair_at(b, 0)->0,
            pair_at(b, 1)->0,
            pair_at(b, 2)->0,
        ]
    } else {
        r matches Err(e) && is_malformed(e, transparent_invalid_message(t))
    }
}

/// The color that the hex digits `t` of a transparent color attribute give,
/// or the message of why they give none.
pub open spec fn spec_transparent_color(t: Seq<char>) -> Result<Seq<u8>, Seq<char>> {
    let b = encode_utf8(t);
    if b.len() != 6 {
        Err(transparent_length_message(t))
    } else if pair_at(b, 0) is Some && pair_at(b, 1) is Some && pair_at(b, 2) is Some {
        Ok(seq![pair_at(b, 0)->0, pair_at(b, 1)->0, pair_at(b, 2)->0])
    } else {
        Err(transparent_invalid_message(t))
    }
}

/// Parses a tileset's transparent color attribute: whitespace and leading
/// `#`s are dropped, and the rest must be six hex digits.
pub fn parse_transparent_color(value: Option<&str>) -> (r: Result<Option<[u8; 3]>, TiledImportError>)
    requires
        value matches Some(v) ==> transparent_text_splits_cleanly(transparent_color_text(v@)),
    ensures
        match value {
            None => r matches Ok(None),
            Some(v) => transparent_color_outcome(transparent_color_text(v@), r),
        },
{
    let v = match value {
        None => return Ok(None),
        Some(v) => v,
    };
    let chars = chars_of(v);
    let (start, end) = transparent_text_bounds(&chars);
    let text = v.substring_char(start, end);
    let b = text.as_bytes();
    if b.len() != 6 {
        return Err(
            TiledImportError::MalformedMap(
                concat3("transparent color `", text, "` must be a 6-digit RGB hex value"),
            ),
        );
    }
    let red = parse_hex_pair(b[0], b[1]);
    let green = parse_hex_pair(b[2], b[3]);
    let blue = parse_hex_pair(b[4], b[5]);
    match (red, green, blue) {
        (Some(x), Some(y), Some(z)) => {
            let c = [x, y, z];
            assert(c@ =~= seq![x, y, z]);
            Ok(Some(c))
        },
        _ => Err(TiledImportError::MalformedMap(concat3("transparent color `", text, "` is invalid"))),
    }
}

/// An 8-bit RGBA color read from a Tiled color property.
#[derive(Clone, Copy, Debug, PartialEq, Eq, Structural)]
pub struct TiledColor {
    pub r: u8,
    pub g: u8,
    pub b: u8,
    pub a: u8,
}

/// The hex digits of a color property: without one leading `#`.
pub open spec fn color_property_digits(s: Seq<char>) -> Seq<char> {
    if s.len() > 0 && s[0] == '#' {
        s.drop_first()
    } else {
        s
    }
}

pub open spec fn color_property_message(value: Seq<char>) -> Seq<char> {
    "property value `"@ + value + "` is not a valid color"@
}

/// What a color property `value` gives: from `RRGGBB` an opaque color, from
/// `AARRGGBB` a color whose alpha is 255 where its pair is not hex.
pub open spec fn spec_tiled_color(value: Seq<char>) -> Option<TiledColor> {
    let b = encode_utf8(color_property_digits(value));
    if b.len() == 6 {
        if pair_at(b, 0) is Some && pair_at(b, 1) is Some && pair_at(b, 2) is Some {
            Some(TiledColor { r: pair_at(b, 0)->0, g: pair_at(b, 1)->0, b: pair_at(b, 2)->0, a: 255 })
        } else {
            None
        }
    } else if b.len() == 8 {
        if pair_at(b, 1) is Some && pair_at(b, 2) is Some && pair_at(b, 3) is Some {
            Some(
                TiledColor {
                    r: pair_at(b, 1)->0,
                    g: pair_at(b, 2)->0,
                    b: pair_at(b, 3)->0,
                    a: match pair_at(b, 0) {
                        Some(a) => a,
                        None => 255,
                    },
                },
            )
        } else {
            None
        }
    } else {
        None
    }
}

/// Parses a color property value, `#RRGGBB` or `#AARRGGBB` (the `#` may be
/// left out).
pub fn parse_tiled_color(value: &str) -> (r: Result<TiledColor, TiledImportError>)
    requires
        encode_utf8(color_property_digits(value@)).len() == 6 ==> pairs_on_char_boundaries(
            color_property_digits(value@),
            3,
        ),
        encode_utf8(color_property_digits(value@)).len() == 8 ==> pairs_on_char_boundaries(
            color_property_digits(value@),
            4,
        ),
    ensures
        match spec_tiled_color(value@) {
            Some(c) => r == Ok::<TiledColor, TiledImportError>(c),
            None => r matches Err(e) && is_malformed(e, color_property_message(value@)),
        },
{
    let n = value.unicode_len();
    let start: usize = if n > 0 && value.get_char(0) == '#' {
        1
    } else {
        0
    };
    let digits = value.substring_char(start, n);
    assert(digits@ == color_property_digits(value@));
    let b = digits.as_bytes();
    let parsed = if b.len() == 6 {
        match (parse_hex_pair(b[0], b[1]), parse_hex_pair(b[2], b[3]), parse_hex_pair(b[4], b[5])) {
            (Some(r), Some(g), Some(bl)) => Some(TiledColor { r, g, b: bl, a: 255 }),
            _ => None,
        }
    } else if b.len() == 8 {
        let a = match parse_hex_pair(b[0], b[1]) {
            Some(a) => a,
            None => 255,
        };
        match (parse_hex_pair(b[2], b[3]), parse_hex_pair(b[4], b[5]), parse_hex_pair(b[6], b[7])) {
            (Some(r), Some(g), Some(bl)) => Some(TiledColor { r, g, b: bl, a }),
            _ => None,
        }
    } else {
        None
    };
    match parsed {
        Some(c) => Ok(c),
        None => Err(
            TiledImportError::MalformedMap(concat3("property value `", value, "` is not a valid color")),
        ),
    }
}

} // verus!
