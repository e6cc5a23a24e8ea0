//! Custom properties of TMX maps, layers, tilesets and tiles: the
//! `<properties>` child of an element, one typed value per `<property>`.
use crate::text::concat3;
use crate::text::is_number_text;
use crate::text::parse_i32;
use crate::text::parse_u32;
use crate::text::spec_is_number_text;
use crate::text::spec_parse_i32;
use crate::text::spec_parse_u32;
use crate::text::str_equal;
use crate::tiled::color::color_property_digits;
use crate::tiled::color::pairs_on_char_boundaries;
use crate::tiled::color::parse_tiled_color;
use crate::tiled::color::spec_tiled_color;
use crate::tiled::color::TiledColor;
use crate::tiled::error::malformed;
use crate::tiled::error::map_failure_is;
use crate::tiled::error::map_outcome;
use crate::tiled::error::MapFailure;
use crate::tiled::error::TiledImportError;
use crate::tiled::tmx::or_default;
use crate::tiled::xml::attr_value;
use crate::tiled::xml::attribute;
use crate::tiled::xml::child_elements;
use crate::tiled::xml::children_named;
use crate::tiled::xml::first_child_element;
use crate::tiled::xml::required_attr;
use crate::tiled::xml::required_u32_attr;
use crate::tiled::xml::spec_required_attr;
use crate::tiled::xml::spec_required_u32_attr;
use crate::tiled::xml::XmlNode;
use vstd::prelude::*;
use vstd::string::StringExecFns;
use vstd::utf8::encode_utf8;
use vstd::utf8::is_char_boundary;
use vstd::string::StrSliceExecFns;

verus! {

/// The value of a custom property. A decimal keeps its text, which reads
/// as a number; a file keeps its path as written.
#[derive(Debug)]
pub enum TiledPropertyValue {
    Bool(bool),
    Int(i32),
    Float(String),
    String(String),
    Color(TiledColor),
    File(String),
    Object(u32),
}

/// A named custom property.
#[derive(Debug)]
pub struct TiledProperty {
    pub name: String,
    pub value: TiledPropertyValue,
}

/// A property value as plain values.
pub ghost enum PropertyValueView {
    Bool(bool),
    Int(i32),
    Float(Seq<char>),
    String(Seq<char>),
    Color(TiledColor),
    File(Seq<char>),
    Object(u32),
}

pub open spec fn value_view(v: TiledPropertyValue) -> PropertyValueView {
    match v {
        TiledPropertyValue::Bool(b) => PropertyValueView::Bool(b),
        TiledPropertyValue::Int(i) => PropertyValueView::Int(i),
        TiledPropertyValue::Float(t) => PropertyValueView::Float(t@),
        TiledPropertyValue::String(t) => PropertyValueView::String(t@),
        TiledPropertyValue::Color(c) => PropertyValueView::Color(c),
        TiledPropertyValue::File(t) => PropertyValueView::File(t@),
        TiledPropertyValue::Object(o) => PropertyValueView::Object(o),
    }
}

pub open spec fn property_view(p: TiledProperty) -> (Seq<char>, PropertyValueView) {
    (p.name@, value_view(p.value))
}

pub open spec fn properties_view(ps: Seq<TiledProperty>) -> Seq<(Seq<char>, PropertyValueView)> {
    ps.map_values(|p: TiledProperty| property_view(p))
}

/// The message for a property value that its type cannot hold.
pub open spec fn property_message(value: Seq<char>, value_type: Seq<char>) -> Seq<char> {
    "property value `"@ + value + "` is not a valid "@ + value_type
}

/// The value of type `value_type` that text `value` gives: a `bool` is true
/// for `true` or `1`; an `int`, `float` or `object` must read as one; a
/// `color` is `RRGGBB` or `AARRGGBB`; a `file` is its path; any other type
/// is a string.
pub open spec fn spec_property_value(value_type: Seq<char>, value: Seq<char>) -> Result<
    PropertyValueView,
    Seq<char>,
> {
    if value_type == "bool"@ {
        Ok(PropertyValueView::Bool(value == "true"@ || value == "1"@))
    } else if value_type == "int"@ {
        match spec_parse_i32(value) {
            Some(i) => Ok(PropertyValueView::Int(i)),
            None => Err(property_message(value, value_type)),
        }
    } else if value_type == "float"@ {
        if spec_is_number_text(value) {
            Ok(PropertyValueView::Float(value))
        } else {
            Err(property_message(value, value_type))
        }
    } else if value_type == "color"@ {
        match spec_tiled_color(value) {
            Some(c) => Ok(PropertyValueView::Color(c)),
            None => Err(property_message(value, "color"@)),
        }
    } else if value_type == "file"@ {
        Ok(PropertyValueView::File(value))
    } else if value_type == "object"@ {
        match spec_parse_u32(value) {
            Some(o) => Ok(PropertyValueView::Object(o)),
            None => Err(property_message(value, value_type)),
        }
    } else {
        Ok(PropertyValueView::String(value))
    }
}

/// Parsing a color value cuts its hex digits into byte pairs on character
/// boundaries.
pub open spec fn color_text_splits_cleanly(value: Seq<char>) -> bool {
    &&& encode_utf8(color_property_digits(value)).len() == 6 ==> pairs_on_char_boundaries(
        color_property_digits(value),
        3,
    )
    &&& encode_utf8(color_property_digits(value)).len() == 8 ==> pairs_on_char_boundaries(
        color_property_digits(value),
        4,
    )
}

fn color_text_splits_cleanly_exec(value: &str) -> (r: bool)
    ensures
        r == color_text_splits_cleanly(value@),
{
    let n = value.unicode_len();
    let start: usize = if n > 0 && value.get_char(0) == '#' {
        1
    } else {
        0
    };
    let digits = value.substring_char(start, n);
    assert(digits@ =~= color_property_digits(value@));
    let len = digits.as_bytes().len();
    if len == 6 {
        let r = digits.is_char_boundary(2) && digits.is_char_boundary(4);
        proof {
            let t = color_property_digits(value@);
            if r {
                assert forall|i: int| 0 < i < 2 * 3 && i % 2 == 0 implies #[trigger] is_char_boundary(
                    encode_utf8(t),
                    i,
                ) by {
                    assert(i == 2 || i == 4);
                }
            }
        }
        r
    } else if len == 8 {
        let r = digits.is_char_boundary(2) && digits.is_char_boundary(4) && digits.is_char_boundary(6);
        proof {
            let t = color_property_digits(value@);
            if r {
                assert forall|i: int| 0 < i < 2 * 4 && i % 2 == 0 implies #[trigger] is_char_boundary(
                    encode_utf8(t),
                    i,
                ) by {
                    assert(i == 2 || i == 4 || i == 6);
                }
            }
        }
        r
    } else {
        true
    }
}

/// Whether every color property of a document splits cleanly (see
/// [`property_colors_split_cleanly`]), as reading properties requires.
pub fn property_colors_split_cleanly_check(nodes: &Vec<XmlNode>) -> (r: bool)
    ensures
        r == property_colors_split_cleanly(nodes@),
{
    let mut k: usize = 0;
    while k < nodes.len()
        invariant
            k <= nodes@.len(),
            forall|i: int|
                0 <= i < k && (#[trigger] nodes@[i]).is_element && nodes@[i].tag@ == "property"@
                    && property_type(nodes@[i]) == "color"@ ==> color_text_splits_cleanly(
                    property_text(nodes@[i]),
                ),
        decreases nodes.len() - k,
    {
        proof {
            reveal_strlit("string");
            reveal_strlit("");
        }
        let node = &nodes[k];
        if node.is_element && str_equal(node.tag.as_str(), "property") {
            let value_type: &str = match attribute(node, "type") {
                Some(t) => t,
                None => "string",
            };
            if str_equal(value_type, "color") {
                let value: &str = match attribute(node, "value") {
                    Some(v) => v,
                    None => match &node.text {
                        Some(t) => t.as_str(),
                        None => "",
                    },
                };
                assert(value@ == property_text(nodes@[k as int]));
                if !color_text_splits_cleanly_exec(value) {
                    return false;
                }
            }
        }
        k = k + 1;
    }
    true
}

fn message(value: &str, value_type: &str) -> (e: TiledImportError)
    ensures
        e matches TiledImportError::MalformedMap(m) && m@ == property_message(value@, value_type@),
{
    let mut s = concat3("property value `", value, "` is not a valid ");
    s.append(value_type);
    TiledImportError::MalformedMap(s)
}

/// Reads a property value of type `value_type` (see [`spec_property_value`]).
pub fn parse_property_value(value_type: &str, value: &str) -> (r: Result<TiledPropertyValue, TiledImportError>)
    requires
        value_type@ == "color"@ ==> color_text_splits_cleanly(value@),
    ensures
        match spec_property_value(value_type@, value@) {
            Ok(v) => r matches Ok(x) && value_view(x) == v,
            Err(m) => r matches Err(TiledImportError::MalformedMap(x)) && x@ == m,
        },
{
    proof {
        reveal_strlit("color");
    }
    if str_equal(value_type, "bool") {
        Ok(TiledPropertyValue::Bool(str_equal(value, "true") || str_equal(value, "1")))
    } else if str_equal(value_type, "int") {
        match parse_i32(value) {
            Some(i) => Ok(TiledPropertyValue::Int(i)),
            None => Err(message(value, value_type)),
        }
    } else if str_equal(value_type, "float") {
        if is_number_text(value) {
            Ok(TiledPropertyValue::Float(value.to_owned()))
        } else {
            Err(message(value, value_type))
        }
    } else if str_equal(value_type, "color") {
        match parse_tiled_color(value) {
            Ok(c) => Ok(TiledPropertyValue::Color(c)),
            Err(_) => Err(message(value, "color")),
        }
    } else if str_equal(value_type, "file") {
        Ok(TiledPropertyValue::File(value.to_owned()))
    } else if str_equal(value_type, "object") {
        match parse_u32(value) {
            Some(o) => Ok(TiledPropertyValue::Object(o)),
            None => Err(message(value, value_type)),
        }
    } else {
        Ok(TiledPropertyValue::String(value.to_owned()))
    }
}

/// The type of `<property>` element `n`: its `type`, `string` by default.
pub open spec fn property_type(n: XmlNode) -> Seq<char> {
    or_default(attr_value(n, "type"@), "string"@)
}

/// The text of `<property>` element `n`: its `value`, else its own text,
/// else nothing.
pub open spec fn property_text(n: XmlNode) -> Seq<char> {
    match attr_value(n, "value"@) {
        Some(v) => v,
        None => match n.text {
            Some(t) => t@,
            None => Seq::empty(),
        },
    }
}

/// The property of `<property>` element `n`: its required name, then its
/// value.
pub open spec fn spec_property(n: XmlNode) -> Result<(Seq<char>, PropertyValueView), MapFailure> {
    match malformed(spec_required_attr(n, "name"@)) {
        Err(f) => Err(f),
        Ok(name) => match malformed(spec_property_value(property_type(n), property_text(n))) {
            Err(f) => Err(f),
            Ok(v) => Ok((name, v)),
        },
    }
}

/// The properties of the `<property>` elements `ps`, in order.
pub open spec fn spec_property_list(nodes: Seq<XmlNode>, ps: Seq<usize>) -> Result<
    Seq<(Seq<char>, PropertyValueView)>,
    MapFailure,
>
    decreases ps.len(),
{
    if ps.len() == 0 {
        Ok(Seq::empty())
    } else {
        match spec_property_list(nodes, ps.drop_last()) {
            Err(f) => Err(f),
            Ok(prev) => match spec_property(nodes[ps.last() as int]) {
                Err(f) => Err(f),
                Ok(p) => Ok(prev.push(p)),
            },
        }
    }
}

/// The custom properties of element `k`: those of its first `<properties>`
/// child, none without one.
pub open spec fn spec_properties(nodes: Seq<XmlNode>, k: int) -> Result<
    Seq<(Seq<char>, PropertyValueView)>,
    MapFailure,
> {
    let lists = children_named(nodes, k, "properties"@);
    if lists.len() == 0 {
        Ok(Seq::empty())
    } else {
        spec_property_list(nodes, children_named(nodes, lists[0] as int, "property"@))
    }
}

/// Every `<property>` element of type `color` has a value that splits
/// cleanly into hex pairs.
pub open spec fn property_colors_split_cleanly(nodes: Seq<XmlNode>) -> bool {
    forall|k: int|
        0 <= k < nodes.len() && (#[trigger] nodes[k]).is_element && nodes[k].tag@ == "property"@
            && property_type(nodes[k]) == "color"@ ==> color_text_splits_cleanly(
            property_text(nodes[k]),
        )
}

proof fn lemma_property_list_error_persists(nodes: Seq<XmlNode>, ps: Seq<usize>, k: int)
    requires
        0 <= k <= ps.len(),
        spec_property_list(nodes, ps.take(k)) is Err,
    ensures
        spec_property_list(nodes, ps) == spec_property_list(nodes, ps.take(k)),
    decreases ps.len(),
{
    if k < ps.len() {
        assert(ps.drop_last().take(k) =~= ps.take(k));
        lemma_property_list_error_persists(nodes, ps.drop_last(), k);
    } else {
        assert(ps.take(k) =~= ps);
    }
}

fn read_property(node: &XmlNode) -> (r: Result<TiledProperty, TiledImportError>)
    requires
        property_type(*node) == "color"@ ==> color_text_splits_cleanly(property_text(*node)),
    ensures
        match spec_property(*node) {
            Ok(p) => r matches Ok(x) && property_view(x) == p,
            Err(f) => r matches Err(e) && map_failure_is(e, f),
        },
{
    proof {
        reveal_strlit("string");
        reveal_strlit("");
    }
    let name = required_attr(node, "name")?;
    let value_type: &str = match attribute(node, "type") {
        Some(t) => t,
        None => "string",
    };
    let value: &str = match attribute(node, "value") {
        Some(v) => v,
        None => match &node.text {
            Some(t) => t.as_str(),
            None => "",
        },
    };
    assert(value_type@ == property_type(*node));
    assert(value@ == property_text(*node));
    let value = parse_property_value(value_type, value)?;
    assert(value_view(value) == spec_property_value(property_type(*node), property_text(*node))->Ok_0);
    Ok(TiledProperty { name: name.to_owned(), value })
}

/// Reads the custom properties of element `k` (see [`spec_properties`]).
pub fn collect_tmx_properties(nodes: &Vec<XmlNode>, k: usize) -> (r: Result<
    Vec<TiledProperty>,
    TiledImportError,
>)
    requires
        property_colors_split_cleanly(nodes@),
    ensures
        match spec_properties(nodes@, k as int) {
            Ok(v) => r matches Ok(x) && properties_view(x@) == v,
            Err(f) => r matches Err(e) && map_failure_is(e, f),
        },
{
    let mut out: Vec<TiledProperty> = Vec::new();
    let list = match first_child_element(nodes, k, "properties") {
        None => {
            assert(properties_view(out@) =~= Seq::empty());
            return Ok(out);
        },
        Some(l) => l,
    };
    let ps = child_elements(nodes, list, "property");
    let mut i: usize = 0;
    assert(ps@.take(0) =~= Seq::<usize>::empty());
    assert(properties_view(out@) =~= Seq::empty());
    while i < ps.len()
        invariant
            i <= ps@.len(),
            property_colors_split_cleanly(nodes@),
            spec_properties(nodes@, k as int) == spec_property_list(nodes@, ps@),
            forall|j: int|
                0 <= j < ps@.len() ==> (#[trigger] ps@[j]) < nodes@.len() && nodes@[ps@[j] as int].is_element
                    && nodes@[ps@[j] as int].tag@ == "property"@,
            spec_property_list(nodes@, ps@.take(i as int)) == Ok::<
                Seq<(Seq<char>, PropertyValueView)>,
                MapFailure,
            >(properties_view(out@)),
        decreases ps.len() - i,
    {
        assert(ps@.take(i + 1).drop_last() =~= ps@.take(i as int));
        assert(ps@.take(i + 1).last() == ps@[i as int]);
        let node = &nodes[ps[i]];
        match read_property(node) {
            Err(e) => {
                proof {
                    lemma_property_list_error_persists(nodes@, ps@, i + 1);
                }
                return Err(e);
            },
            Ok(p) => {
                let ghost before = out@;
                let ghost pv = property_view(p);
                out.push(p);
                assert(properties_view(out@) =~= properties_view(before).push(pv));
            },
        }
        i = i + 1;
    }
    assert(ps@.take(i as int) =~= ps@);
    Ok(out)
}

/// `props` recorded under tile `id` in `table`, which grows with empty
/// entries to reach it.
pub open spec fn place_properties(
    table: Seq<Seq<(Seq<char>, PropertyValueView)>>,
    id: int,
    props: Seq<(Seq<char>, PropertyValueView)>,
) -> Seq<Seq<(Seq<char>, PropertyValueView)>> {
    let grown = if table.len() <= id {
        table + Seq::new(
            (id + 1 - table.len()) as nat,
            |i: int| Seq::<(Seq<char>, PropertyValueView)>::empty(),
        )
    } else {
        table
    };
    grown.update(id, props)
}

/// The properties of the `<tile>` elements `tiles` by tile id: each tile's
/// required `id`, then its properties, recorded when there are any.
pub open spec fn spec_tile_property_table(nodes: Seq<XmlNode>, tiles: Seq<usize>) -> Result<
    Seq<Seq<(Seq<char>, PropertyValueView)>>,
    MapFailure,
>
    decreases tiles.len(),
{
    if tiles.len() == 0 {
        Ok(Seq::empty())
    } else {
        match spec_tile_property_table(nodes, tiles.drop_last()) {
            Err(f) => Err(f),
            Ok(prev) => {
                let k = tiles.last() as int;
                match malformed(spec_required_u32_attr(nodes[k], "id"@)) {
                    Err(f) => Err(f),
                    Ok(id) => match spec_properties(nodes, k) {
                        Err(f) => Err(f),
                        Ok(props) => if props.len() == 0 {
                            Ok(prev)
                        } else {
                            Ok(place_properties(prev, id as int, props))
                        },
                    },
                }
            },
        }
    }
}

/// The tile properties of tileset element `t`.
pub open spec fn spec_tile_properties(nodes: Seq<XmlNode>, t: int) -> Result<
    Seq<Seq<(Seq<char>, PropertyValueView)>>,
    MapFailure,
> {
    spec_tile_property_table(nodes, children_named(nodes, t, "tile"@))
}

pub open spec fn table_view(table: Seq<Vec<TiledProperty>>) -> Seq<Seq<(Seq<char>, PropertyValueView)>> {
    table.map_values(|v: Vec<TiledProperty>| properties_view(v@))
}

proof fn lemma_tile_table_error_persists(nodes: Seq<XmlNode>, tiles: Seq<usize>, k: int)
    requires
        0 <= k <= tiles.len(),
        spec_tile_property_table(nodes, tiles.take(k)) is Err,
    ensures
        spec_tile_property_table(nodes, tiles) == spec_tile_property_table(nodes, tiles.take(k)),
    decreases tiles.len(),
{
    if k < tiles.len() {
        assert(tiles.drop_last().take(k) =~= tiles.take(k));
        lemma_tile_table_error_persists(nodes, tiles.drop_last(), k);
    } else {
        assert(tiles.take(k) =~= tiles);
    }
}

/// Reads the properties of the tiles of tileset element `t`, by tile id
/// (see [`spec_tile_properties`]).
pub fn collect_tmx_tile_properties(nodes: &Vec<XmlNode>, t: usize) -> (r: Result<
    Vec<Vec<TiledProperty>>,
    TiledImportError,
>)
    requires
        property_colors_split_cleanly(nodes@),
    ensures
        match spec_tile_properties(nodes@, t as int) {
            Ok(v) => r matches Ok(x) && table_view(x@) == v,
            Err(f) => r matches Err(e) && map_failure_is(e, f),
        },
{
    let tiles = child_elements(nodes, t, "tile");
    let mut table: Vec<Vec<TiledProperty>> = Vec::new();
    let mut i: usize = 0;
    assert(tiles@.take(0) =~= Seq::<usize>::empty());
    assert(table_view(table@) =~= Seq::empty());
    while i < tiles.len()
        invariant
            i <= tiles@.len(),
            property_colors_split_cleanly(nodes@),
            tiles@ == children_named(nodes@, t as int, "tile"@),
            forall|j: int| 0 <= j < tiles@.len() ==> (#[trigger] tiles@[j]) < nodes@.len(),
            spec_tile_property_table(nodes@, tiles@.take(i as int)) == Ok::<
                Seq<Seq<(Seq<char>, PropertyValueView)>>,
                MapFailure,
            >(table_view(table@)),
        decreases tiles.len() - i,
    {
        assert(tiles@.take(i + 1).drop_last() =~= tiles@.take(i as int));
        assert(tiles@.take(i + 1).last() == tiles@[i as int]);
        let k = tiles[i];
        let id = match required_u32_attr(&nodes[k], "id") {
            Ok(v) => v,
            Err(e) => {
                proof {
                    lemma_tile_table_error_persists(nodes@, tiles@, i + 1);
                }
                return Err(e);
            },
        };
        let props = match collect_tmx_properties(nodes, k) {
            Ok(p) => p,
            Err(e) => {
                proof {
                    lemma_tile_table_error_persists(nodes@, tiles@, i + 1);
                }
                return Err(e);
            },
        };
        if props.len() > 0 {
            place(&mut table, id, props);
        }
        i = i + 1;
    }
    assert(tiles@.take(i as int) =~= tiles@);
    Ok(table)
}

/// A JSON number as property parsing reads it: its value as a signed and as
/// an unsigned 64-bit integer where it is one, and its JSON text.
#[derive(Debug)]
pub struct JsonNumber {
    pub as_i64: Option<i64>,
    pub as_u64: Option<u64>,
    pub text: String,
}

/// A JSON value as property parsing reads it; an array or an object keeps
/// only its JSON text.
#[derive(Debug)]
pub enum JsonValue {
    Null,
    Bool(bool),
    Number(JsonNumber),
    String(String),
    Array(String),
    Object(String),
}

/// A custom property of a JSON map, layer, tileset or tile: its name, its
/// optional `type` and its value.
#[derive(Debug)]
pub struct JsonProperty {
    pub name: String,
    pub value_type: Option<String>,
    pub value: JsonValue,
}

/// A JSON value as a string: a string itself; any other value as JSON
/// writes it.
pub open spec fn json_text(v: JsonValue) -> Seq<char> {
    match v {
        JsonValue::Null => "null"@,
        JsonValue::Bool(b) => if b {
            "true"@
        } else {
            "false"@
        },
        JsonValue::Number(n) => n.text@,
        JsonValue::String(s) => s@,
        JsonValue::Array(t) => t@,
        JsonValue::Object(t) => t@,
    }
}

/// A JSON value's string, or nothing for other values.
pub open spec fn json_str(v: JsonValue) -> Seq<char> {
    match v {
        JsonValue::String(s) => s@,
        _ => Seq::empty(),
    }
}

/// The value of type `value_type` that JSON value `v` gives: a `bool` is
/// true for `true` only; an `int` is a 64-bit integer cut to 32 bits (0 for
/// anything else); a `float` is a number (0 for anything else); a `color`
/// is read from a string as in TMX; a `file` is a string path; an `object`
/// is an unsigned 64-bit integer cut to 32 bits (0 for anything else); any
/// other type is the value as a string.
pub open spec fn spec_json_property_value(value_type: Seq<char>, v: JsonValue) -> Result<
    PropertyValueView,
    Seq<char>,
> {
    if value_type == "bool"@ {
        Ok(PropertyValueView::Bool(v matches JsonValue::Bool(b) && b))
    } else if value_type == "int"@ {
        Ok(
            PropertyValueView::Int(
                match v {
                    JsonValue::Number(n) => match n.as_i64 {
                        Some(i) => i as i32,
                        None => 0,
                    },
                    _ => 0,
                },
            ),
        )
    } else if value_type == "float"@ {
        Ok(
            PropertyValueView::Float(
                match v {
                    JsonValue::Number(n) => n.text@,
                    _ => "0"@,
                },
            ),
        )
    } else if value_type == "color"@ {
        match spec_tiled_color(json_str(v)) {
            Some(c) => Ok(PropertyValueView::Color(c)),
            None => Err(property_message(json_str(v), "color"@)),
        }
    } else if value_type == "file"@ {
        Ok(PropertyValueView::File(json_str(v)))
    } else if value_type == "object"@ {
        Ok(
            PropertyValueView::Object(
                match v {
                    JsonValue::Number(n) => match n.as_u64 {
                        Some(u) => u as u32,
                        None => 0,
                    },
                    _ => 0,
                },
            ),
        )
    } else {
        Ok(PropertyValueView::String(json_text(v)))
    }
}

/// The type of a JSON property: its `type`, `string` by default.
pub open spec fn json_property_type(p: JsonProperty) -> Seq<char> {
    match p.value_type {
        Some(t) => t@,
        None => "string"@,
    }
}

/// Reading JSON property `p` as a color cuts its hex digits on character
/// boundaries.
pub open spec fn json_color_splits_cleanly(p: JsonProperty) -> bool {
    json_property_type(p) == "color"@ ==> color_text_splits_cleanly(json_str(p.value))
}

/// Reads a JSON property value of type `value_type` (see
/// [`spec_json_property_value`]).
pub fn parse_json_property_value(value_type: &str, value: &JsonValue) -> (r: Result<
    TiledPropertyValue,
    TiledImportError,
>)
    requires
        value_type@ == "color"@ ==> color_text_splits_cleanly(json_str(*value)),
    ensures
        match spec_json_property_value(value_type@, *value) {
            Ok(v) => r matches Ok(x) && value_view(x) == v,
            Err(m) => r matches Err(TiledImportError::MalformedMap(x)) && x@ == m,
        },
{
    proof {
        reveal_strlit("");
        reveal_strlit("0");
        reveal_strlit("null");
        reveal_strlit("true");
        reveal_strlit("false");
        reveal_strlit("color");
    }
    let text: &str = match value {
        JsonValue::String(s) => s.as_str(),
        _ => "",
    };
    assert(text@ == json_str(*value));
    if str_equal(value_type, "bool") {
        Ok(TiledPropertyValue::Bool(
            match value {
                JsonValue::Bool(b) => *b,
                _ => false,
            },
        ))
    } else if str_equal(value_type, "int") {
        let i: i64 = match value {
            JsonValue::Number(n) => match n.as_i64 {
                Some(i) => i,
                None => 0,
            },
            _ => 0,
        };
        Ok(TiledPropertyValue::Int(i as i32))
    } else if str_equal(value_type, "float") {
        let t: &str = match value {
            JsonValue::Number(n) => n.text.as_str(),
            _ => "0",
        };
        Ok(TiledPropertyValue::Float(t.to_owned()))
    } else if str_equal(value_type, "color") {
        match parse_tiled_color(text) {
            Ok(c) => Ok(TiledPropertyValue::Color(c)),
            Err(_) => Err(message(text, "color")),
        }
    } else if str_equal(value_type, "file") {
        Ok(TiledPropertyValue::File(text.to_owned()))
    } else if str_equal(value_type, "object") {
        let u: u64 = match value {
            JsonValue::Number(n) => match n.as_u64 {
                Some(u) => u,
                None => 0,
            },
            _ => 0,
        };
        Ok(TiledPropertyValue::Object(u as u32))
    } else {
        let rendered: &str = match value {
            JsonValue::Null => "null",
            JsonValue::Bool(b) => if *b {
                "true"
            } else {
                "false"
            },
            JsonValue::Number(n) => n.text.as_str(),
            JsonValue::String(s) => s.as_str(),
            JsonValue::Array(t) => t.as_str(),
            JsonValue::Object(t) => t.as_str(),
        };
        assert(rendered@ == json_text(*value));
        Ok(TiledPropertyValue::String(rendered.to_owned()))
    }
}

/// The properties of a JSON property list, in order; or the first failure.
pub open spec fn spec_json_properties(ps: Seq<JsonProperty>) -> Result<
    Seq<(Seq<char>, PropertyValueView)>,
    Seq<char>,
>
    decreases ps.len(),
{
    if ps.len() == 0 {
        Ok(Seq::empty())
    } else {
        match spec_json_properties(ps.drop_last()) {
            Err(m) => Err(m),
            Ok(prev) => match spec_json_property_value(json_property_type(ps.last()), ps.last().value) {
                Err(m) => Err(m),
                Ok(v) => Ok(prev.push((ps.last().name@, v))),
            },
        }
    }
}

proof fn lemma_json_properties_error_persists(ps: Seq<JsonProperty>, k: int)
    requires
        0 <= k <= ps.len(),
        spec_json_properties(ps.take(k)) is Err,
    ensures
        spec_json_properties(ps) == spec_json_properties(ps.take(k)),
    decreases ps.len(),
{
    if k < ps.len() {
        assert(ps.drop_last().take(k) =~= ps.take(k));
        lemma_json_properties_error_persists(ps.drop_last(), k);
    } else {
        assert(ps.take(k) =~= ps);
    }
}

/// Reads the custom properties of a JSON map, layer, tileset or tile.
pub fn collect_json_properties(properties: &Vec<JsonProperty>) -> (r: Result<
    Vec<TiledProperty>,
    TiledImportError,
>)
    requires
        forall|k: int| 0 <= k < properties@.len() ==> json_color_splits_cleanly(#[trigger] properties@[k]),
    ensures
        match spec_json_properties(properties@) {
            Ok(v) => r matches Ok(x) && properties_view(x@) == v,
            Err(m) => r matches Err(TiledImportError::MalformedMap(x)) && x@ == m,
        },
{
    let mut out: Vec<TiledProperty> = Vec::new();
    let mut i: usize = 0;
    assert(properties@.take(0) =~= Seq::<JsonProperty>::empty());
    assert(properties_view(out@) =~= Seq::empty());
    while i < properties.len()
        invariant
            i <= properties@.len(),
            forall|k: int| 0 <= k < properties@.len() ==> json_color_splits_cleanly(#[trigger] properties@[k]),
            spec_json_properties(properties@.take(i as int)) == Ok::<
                Seq<(Seq<char>, PropertyValueView)>,
                Seq<char>,
            >(properties_view(out@)),
        decreases properties.len() - i,
    {
        proof {
            reveal_strlit("string");
        }
        assert(properties@.take(i + 1).drop_last() =~= properties@.take(i as int));
        assert(properties@.take(i + 1).last() == properties@[i as int]);
        let p = &properties[i];
        assert(json_color_splits_cleanly(properties@[i as int]));
        let value_type: &str = match &p.value_type {
            Some(t) => t.as_str(),
            None => "string",
        };
        assert(value_type@ == json_property_type(*p));
        match parse_json_property_value(value_type, &p.value) {
            Err(e) => {
                proof {
                    lemma_json_properties_error_persists(properties@, i + 1);
                }
                return Err(e);
            },
            Ok(v) => {
                let ghost before = out@;
                let prop = TiledProperty { name: p.name.clone(), value: v };
                let ghost pv = property_view(prop);
                out.push(prop);
                assert(properties_view(out@) =~= properties_view(before).push(pv));
            },
        }
        i = i + 1;
    }
    assert(properties@.take(i as int) =~= properties@);
    Ok(out)
}

/// A JSON tile's id and custom properties.
#[derive(Debug)]
pub struct JsonTileProperties {
    pub id: u32,
    pub properties: Vec<JsonProperty>,
}

/// The properties of JSON tiles by tile id: each tile's properties,
/// recorded when there are any.
pub open spec fn spec_json_tile_properties(tiles: Seq<JsonTileProperties>) -> Result<
    Seq<Seq<(Seq<char>, PropertyValueView)>>,
    Seq<char>,
>
    decreases tiles.len(),
{
    if tiles.len() == 0 {
        Ok(Seq::empty())
    } else {
        match spec_json_tile_properties(tiles.drop_last()) {
            Err(m) => Err(m),
            Ok(prev) => match spec_json_properties(tiles.last().properties@) {
                Err(m) => Err(m),
                Ok(props) => if props.len() == 0 {
                    Ok(prev)
                } else {
                    Ok(place_properties(prev, tiles.last().id as int, props))
                },
            },
        }
    }
}

proof fn lemma_json_tile_properties_error_persists(tiles: Seq<JsonTileProperties>, k: int)
    requires
        0 <= k <= tiles.len(),
        spec_json_tile_properties(tiles.take(k)) is Err,
    ensures
        spec_json_tile_properties(tiles) == spec_json_tile_properties(tiles.take(k)),
    decreases tiles.len(),
{
    if k < tiles.len() {
        assert(tiles.drop_last().take(k) =~= tiles.take(k));
        lemma_json_tile_properties_error_persists(tiles.drop_last(), k);
    } else {
        assert(tiles.take(k) =~= tiles);
    }
}

/// `props` recorded under `id` in `table` (see [`place_properties`]).
fn place(table: &mut Vec<Vec<TiledProperty>>, id: u32, props: Vec<TiledProperty>)
    ensures
        table_view(final(table)@) == place_properties(table_view(old(table)@), id as int, properties_view(props@)),
{
    let ghost before = table_view(table@);
    let ghost pv = properties_view(props@);
    let n = id as usize;
    while table.len() <= n
        invariant
            n == id,
            before.len() <= table@.len(),
            before.len() <= n ==> table@.len() <= n + 1,
            before.len() > n ==> table@.len() == before.len(),
            table_view(table@) == before + Seq::new(
                (table@.len() - before.len()) as nat,
                |i: int| Seq::<(Seq<char>, PropertyValueView)>::empty(),
            ),
        decreases n + 1 - table.len(),
    {
        let ghost old_view = table_view(table@);
        let empty: Vec<TiledProperty> = Vec::new();
        assert(properties_view(empty@) =~= Seq::<(Seq<char>, PropertyValueView)>::empty());
        table.push(empty);
        assert(table_view(table@) =~= old_view.push(Seq::<(Seq<char>, PropertyValueView)>::empty()));
        assert(table_view(table@) =~= before + Seq::new(
            (table@.len() - before.len()) as nat,
            |i: int| Seq::<(Seq<char>, PropertyValueView)>::empty(),
        ));
    }
    let ghost grown = table_view(table@);
    assert(grown =~= (if before.len() <= id {
        before + Seq::new(
            (id + 1 - before.len()) as nat,
            |i: int| Seq::<(Seq<char>, PropertyValueView)>::empty(),
        )
    } else {
        before
    }));
    table.set(n, props);
    assert(table_view(table@) =~= grown.update(id as int, pv));
}

/// Reads the custom properties of JSON tiles, by tile id.
pub fn collect_json_tile_properties(tiles: &Vec<JsonTileProperties>) -> (r: Result<
    Vec<Vec<TiledProperty>>,
    TiledImportError,
>)
    requires
        forall|t: int, k: int|
            0 <= t < tiles@.len() && 0 <= k < tiles@[t].properties@.len() ==> json_color_splits_cleanly(
                #[trigger] tiles@[t].properties@[k],
            ),
    ensures
        match spec_json_tile_properties(tiles@) {
            Ok(v) => r matches Ok(x) && table_view(x@) == v,
            Err(m) => r matches Err(TiledImportError::MalformedMap(x)) && x@ == m,
        },
{
    let mut table: Vec<Vec<TiledProperty>> = Vec::new();
    let mut i: usize = 0;
    assert(tiles@.take(0) =~= Seq::<JsonTileProperties>::empty());
    assert(table_view(table@) =~= Seq::empty());
    while i < tiles.len()
        invariant
            i <= tiles@.len(),
            forall|t: int, k: int|
                0 <= t < tiles@.len() && 0 <= k < tiles@[t].properties@.len() ==> json_color_splits_cleanly(
                    #[trigger] tiles@[t].properties@[k],
                ),
            spec_json_tile_properties(tiles@.take(i as int)) == Ok::<
                Seq<Seq<(Seq<char>, PropertyValueView)>>,
                Seq<char>,
            >(table_view(table@)),
        decreases tiles.len() - i,
    {
        assert(tiles@.take(i + 1).drop_last() =~= tiles@.take(i as int));
        assert(tiles@.take(i + 1).last() == tiles@[i as int]);
        let tile = &tiles[i];
        assert forall|k: int| 0 <= k < tile.properties@.len() implies json_color_splits_cleanly(
            #[trigger] tile.properties@[k],
        ) by {
            assert(tiles@[i as int].properties@[k] == tile.properties@[k]);
        }
        let props = match collect_json_properties(&tile.properties) {
            Ok(p) => p,
            Err(e) => {
                proof {
                    lemma_json_tile_properties_error_persists(tiles@, i + 1);
                }
                return Err(e);
            },
        };
        if props.len() > 0 {
            place(&mut table, tile.id, props);
        }
        i = i + 1;
    }
    assert(tiles@.take(i as int) =~= tiles@);
    Ok(table)
}

/// Whether every color property of a JSON property list splits cleanly
/// (see [`json_color_splits_cleanly`]), as reading the list requires.
pub fn json_property_colors_split_cleanly(properties: &Vec<JsonProperty>) -> (r: bool)
    ensures
        r == (forall|k: int|
            0 <= k < properties@.len() ==> json_color_splits_cleanly(#[trigger] properties@[k])),
{
    let mut i: usize = 0;
    while i < properties.len()
        invariant
            i <= properties@.len(),
            forall|k: int| 0 <= k < i ==> json_color_splits_cleanly(#[trigger] properties@[k]),
        decreases properties.len() - i,
    {
        proof {
            reveal_strlit("string");
            reveal_strlit("");
        }
        let p = &properties[i];
        let value_type: &str = match &p.value_type {
            Some(t) => t.as_str(),
            None => "string",
        };
        assert(value_type@ == json_property_type(*p));
        if str_equal(value_type, "color") {
            let text: &str = match &p.value {
                JsonValue::String(s) => s.as_str(),
                _ => "",
            };
            assert(text@ == json_str(p.value));
            if !color_text_splits_cleanly_exec(text) {
                assert(!json_color_splits_cleanly(properties@[i as int]));
                return false;
            }
        }
        i = i + 1;
    }
    true
}

} // verus!
