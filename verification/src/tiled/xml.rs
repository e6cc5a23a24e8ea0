//! A parsed XML document as a flat list of nodes, and the attribute readers
//! of the TMX format over it.
use crate::text::concat3;
use crate::text::is_number_text;
use crate::text::parse_i32;
use crate::text::parse_u32;
use crate::text::spec_is_number_text;
use crate::text::spec_parse_i32;
use crate::text::spec_parse_u32;
use crate::text::str_equal;
use crate::tiled::color::is_malformed;
use crate::tiled::error::TiledImportError;
use vstd::prelude::*;
use vstd::string::StringExecFns;

verus! {

/// An attribute of an XML element: whether its name has a namespace, its
/// local name and its value.
#[derive(Debug)]
pub struct XmlAttribute {
    pub namespaced: bool,
    pub name: String,
    pub value: String,
}

/// One node of an XML document. The document is a list of nodes in document
/// order, the document node first; `parent` is the position of the node's
/// parent in that list. `tag` is an element's local name (empty for other
/// nodes) and `text` the node's text: for an element, that of its first
/// child when that child is text.
#[derive(Debug)]
pub struct XmlNode {
    pub parent: Option<usize>,
    pub is_element: bool,
    pub tag: String,
    pub attributes: Vec<XmlAttribute>,
    pub text: Option<String>,
}

/// An attribute as plain values.
pub ghost struct XmlAttributeView {
    pub namespaced: bool,
    pub name: Seq<char>,
    pub value: Seq<char>,
}

/// A node as plain values.
pub ghost struct XmlNodeView {
    pub parent: Option<usize>,
    pub is_element: bool,
    pub tag: Seq<char>,
    pub attributes: Seq<XmlAttributeView>,
    pub text: Option<Seq<char>>,
}

pub open spec fn attribute_view(a: XmlAttribute) -> XmlAttributeView {
    XmlAttributeView { namespaced: a.namespaced, name: a.name@, value: a.value@ }
}

pub open spec fn node_view(n: XmlNode) -> XmlNodeView {
    XmlNodeView {
        parent: n.parent,
        is_element: n.is_element,
        tag: n.tag@,
        attributes: n.attributes@.map_values(|a: XmlAttribute| attribute_view(a)),
        text: match n.text {
            Some(t) => Some(t@),
            None => None,
        },
    }
}

/// The nodes of a parsed document, or the parser's error text.
pub open spec fn document_view(r: Result<Vec<XmlNode>, String>) -> Result<Seq<XmlNodeView>, Seq<char>> {
    match r {
        Ok(nodes) => Ok(nodes@.map_values(|n: XmlNode| node_view(n))),
        Err(e) => Err(e@),
    }
}

/// What the XML parser makes of a text: the document's nodes, or the text
/// of its error.
pub uninterp spec fn xml_document(text: Seq<char>) -> Result<Seq<XmlNodeView>, Seq<char>>;

/// Parses XML with `roxmltree::Document::parse` and lists the document's
/// nodes as `Document::descendants` walks them, in document order. The
/// contract claims only that the outcome is a function of the text; that
/// parents are given by position relies on roxmltree numbering its nodes in
/// the order it appends them while parsing, which is document order.
#[verifier::external_body]
fn read_xml_nodes(text: &str) -> (r: Result<Vec<XmlNode>, String>)
    ensures
        document_view(r) == xml_document(text@),
{
    let document = roxmltree::Document::parse(text).map_err(|error| error.to_string())?;
    let mut nodes = Vec::new();
    for node in document.descendants() {
        let mut attributes = Vec::new();
        for a in node.attributes() {
            attributes.push(XmlAttribute { namespaced: a.namespace().is_some(), name: a.name().to_owned(), value: a.value().to_owned() });
        }
        let parent = node.parent().map(|p| p.id().get_usize());
        let text = node.text().map(str::to_owned);
        nodes.push(XmlNode { parent, is_element: node.is_element(), tag: node.tag_name().name().to_owned(), attributes, text });
    }
    Ok(nodes)
}

/// `e` is the error of a text the XML parser rejected with `message`.
pub open spec fn is_xml_error(e: TiledImportError, message: Seq<char>) -> bool {
    e matches TiledImportError::Xml(m) && m@ == message
}

/// Parses an XML document into its nodes.
pub fn parse_xml(text: &str) -> (r: Result<Vec<XmlNode>, TiledImportError>)
    ensures
        match xml_document(text@) {
            Ok(v) => r matches Ok(nodes) && nodes@.map_values(|n: XmlNode| node_view(n)) == v,
            Err(m) => r matches Err(e) && is_xml_error(e, m),
        },
{
    match read_xml_nodes(text) {
        Ok(nodes) => Ok(nodes),
        Err(message) => Err(TiledImportError::Xml(message)),
    }
}

/// The value of the first attribute among `attrs` without a namespace named
/// `name`.
pub open spec fn find_attr(attrs: Seq<XmlAttribute>, name: Seq<char>) -> Option<Seq<char>>
    decreases attrs.len(),
{
    if attrs.len() == 0 {
        None
    } else if !attrs[0].namespaced && attrs[0].name@ == name {
        Some(attrs[0].value@)
    } else {
        find_attr(attrs.subrange(1, attrs.len() as int), name)
    }
}

/// The value of a node's attribute `name`, as `Node::attribute` finds it.
pub open spec fn attr_value(n: XmlNode, name: Seq<char>) -> Option<Seq<char>> {
    find_attr(n.attributes@, name)
}

pub open spec fn str_opt_view(s: Option<&str>) -> Option<Seq<char>> {
    match s {
        Some(v) => Some(v@),
        None => None,
    }
}

/// The value of a node's attribute `name`.
pub fn attribute<'a>(node: &'a XmlNode, name: &str) -> (r: Option<&'a str>)
    ensures
        str_opt_view(r) == attr_value(*node, name@),
{
    let attrs = &node.attributes;
    let mut i: usize = 0;
    assert(attrs@.subrange(0, attrs@.len() as int) =~= attrs@);
    while i < attrs.len()
        invariant
            i <= attrs@.len(),
            attrs@ == node.attributes@,
            find_attr(attrs@, name@) == find_attr(attrs@.subrange(i as int, attrs@.len() as int), name@),
        decreases attrs.len() - i,
    {
        let ghost rest = attrs@.subrange(i as int, attrs@.len() as int);
        assert(rest[0] == attrs@[i as int]);
        assert(rest.subrange(1, rest.len() as int) =~= attrs@.subrange(i + 1, attrs@.len() as int));
        if !attrs[i].namespaced && str_equal(attrs[i].name.as_str(), name) {
            assert(find_attr(rest, name@) == Some(rest[0].value@));
            return Some(attrs[i].value.as_str());
        }
        i = i + 1;
    }
    assert(attrs@.subrange(i as int, attrs@.len() as int).len() == 0);
    None
}

/// `k` is an element child of node `parent` named `tag`.
pub open spec fn is_child_element(nodes: Seq<XmlNode>, parent: int, k: int, tag: Seq<char>) -> bool {
    &&& nodes[k].parent == Some(parent as usize)
    &&& nodes[k].is_element
    &&& nodes[k].tag@ == tag
}

/// The positions of the element children of `parent` named `tag` among the
/// first `n` nodes, in document order.
pub open spec fn children_named_upto(nodes: Seq<XmlNode>, parent: int, tag: Seq<char>, n: int) -> Seq<usize>
    decreases n,
{
    if n <= 0 {
        Seq::empty()
    } else if is_child_element(nodes, parent, n - 1, tag) {
        children_named_upto(nodes, parent, tag, n - 1).push((n - 1) as usize)
    } else {
        children_named_upto(nodes, parent, tag, n - 1)
    }
}

/// The positions of the element children of `parent` named `tag`, in
/// document order.
pub open spec fn children_named(nodes: Seq<XmlNode>, parent: int, tag: Seq<char>) -> Seq<usize> {
    children_named_upto(nodes, parent, tag, nodes.len() as int)
}

proof fn lemma_children_named_bounded(nodes: Seq<XmlNode>, parent: int, tag: Seq<char>, n: int)
    requires
        0 <= n <= nodes.len(),
        nodes.len() <= usize::MAX,
    ensures
        forall|j: int|
            0 <= j < children_named_upto(nodes, parent, tag, n).len() ==> (
            #[trigger] children_named_upto(nodes, parent, tag, n)[j]) < n && is_child_element(
                nodes,
                parent,
                children_named_upto(nodes, parent, tag, n)[j] as int,
                tag,
            ),
    decreases n,
{
    if n > 0 {
        lemma_children_named_bounded(nodes, parent, tag, n - 1);
        let prev = children_named_upto(nodes, parent, tag, n - 1);
        let cur = children_named_upto(nodes, parent, tag, n);
        assert forall|j: int| 0 <= j < cur.len() implies (#[trigger] cur[j]) < n
            && is_child_element(nodes, parent, cur[j] as int, tag) by {
            if is_child_element(nodes, parent, n - 1, tag) {
                assert(cur == prev.push((n - 1) as usize));
            } else {
                assert(cur == prev);
            }
            if j < prev.len() {
                assert(cur[j] == prev[j]);
            }
        }
    }
}

/// The element children of `parent` named `tag`, in document order.
pub fn child_elements(nodes: &Vec<XmlNode>, parent: usize, tag: &str) -> (r: Vec<usize>)
    ensures
        r@ == children_named(nodes@, parent as int, tag@),
        forall|j: int|
            0 <= j < r@.len() ==> (#[trigger] r@[j]) < nodes@.len() && is_child_element(
                nodes@,
                parent as int,
                r@[j] as int,
                tag@,
            ),
{
    let mut out: Vec<usize> = Vec::new();
    let mut k: usize = 0;
    while k < nodes.len()
        invariant
            k <= nodes@.len(),
            out@ == children_named_upto(nodes@, parent as int, tag@, k as int),
        decreases nodes.len() - k,
    {
        let node = &nodes[k];
        let hit = match node.parent {
            Some(p) => p == parent && node.is_element && str_equal(node.tag.as_str(), tag),
            None => false,
        };
        if hit {
            out.push(k);
        }
        k = k + 1;
    }
    proof {
        lemma_children_named_bounded(nodes@, parent as int, tag@, nodes@.len() as int);
    }
    out
}

/// The first element child of `parent` named `tag`.
pub fn first_child_element(nodes: &Vec<XmlNode>, parent: usize, tag: &str) -> (r: Option<usize>)
    ensures
        match r {
            Some(k) => children_named(nodes@, parent as int, tag@).len() > 0 && k == children_named(
                nodes@,
                parent as int,
                tag@,
            )[0] && k < nodes@.len(),
            None => children_named(nodes@, parent as int, tag@).len() == 0,
        },
{
    let children = child_elements(nodes, parent, tag);
    if children.len() > 0 {
        Some(children[0])
    } else {
        None
    }
}

/// The positions of the element children of `parent` among the first `n`
/// nodes, in document order.
pub open spec fn element_children_upto(nodes: Seq<XmlNode>, parent: int, n: int) -> Seq<usize>
    decreases n,
{
    if n <= 0 {
        Seq::empty()
    } else if nodes[n - 1].parent == Some(parent as usize) && nodes[n - 1].is_element {
        element_children_upto(nodes, parent, n - 1).push((n - 1) as usize)
    } else {
        element_children_upto(nodes, parent, n - 1)
    }
}

/// The positions of the element children of `parent`, in document order.
pub open spec fn element_children_of(nodes: Seq<XmlNode>, parent: int) -> Seq<usize> {
    element_children_upto(nodes, parent, nodes.len() as int)
}

proof fn lemma_element_children_bounded(nodes: Seq<XmlNode>, parent: int, n: int)
    requires
        0 <= n <= nodes.len(),
        nodes.len() <= usize::MAX,
    ensures
        forall|j: int|
            0 <= j < element_children_upto(nodes, parent, n).len() ==> (
            #[trigger] element_children_upto(nodes, parent, n)[j]) < n && nodes[element_children_upto(
                nodes,
                parent,
                n,
            )[j] as int].is_element,
    decreases n,
{
    if n > 0 {
        lemma_element_children_bounded(nodes, parent, n - 1);
        let prev = element_children_upto(nodes, parent, n - 1);
        let cur = element_children_upto(nodes, parent, n);
        assert forall|j: int| 0 <= j < cur.len() implies (#[trigger] cur[j]) < n && nodes[cur[j] as int].is_element by {
            if nodes[n - 1].parent == Some(parent as usize) && nodes[n - 1].is_element {
                assert(cur == prev.push((n - 1) as usize));
            } else {
                assert(cur == prev);
            }
            if j < prev.len() {
                assert(cur[j] == prev[j]);
            }
        }
    }
}

/// The element children of `parent`, in document order.
pub fn element_children(nodes: &Vec<XmlNode>, parent: usize) -> (r: Vec<usize>)
    ensures
        r@ == element_children_of(nodes@, parent as int),
        forall|j: int|
            0 <= j < r@.len() ==> (#[trigger] r@[j]) < nodes@.len() && nodes@[r@[j] as int].is_element,
{
    let mut out: Vec<usize> = Vec::new();
    let mut k: usize = 0;
    while k < nodes.len()
        invariant
            k <= nodes@.len(),
            out@ == element_children_upto(nodes@, parent as int, k as int),
        decreases nodes.len() - k,
    {
        let hit = match nodes[k].parent {
            Some(p) => p == parent && nodes[k].is_element,
            None => false,
        };
        if hit {
            out.push(k);
        }
        k = k + 1;
    }
    proof {
        lemma_element_children_bounded(nodes@, parent as int, nodes@.len() as int);
    }
    out
}

/// The message for a required attribute that an element lacks.
pub open spec fn missing_attr_message(tag: Seq<char>, name: Seq<char>) -> Seq<char> {
    "<"@ + tag + "> is missing required `"@ + name + "` attribute"@
}

/// The message for an attribute whose value cannot be read.
pub open spec fn invalid_attr_message(tag: Seq<char>, name: Seq<char>, value: Seq<char>) -> Seq<char> {
    "<"@ + tag + "> has invalid `"@ + name + "` attribute `"@ + value + "`"@
}

/// `r` is the outcome that `s` describes: the same value, or a malformed-map
/// error with the message.
pub open spec fn attr_outcome<T>(r: Result<T, TiledImportError>, s: Result<T, Seq<char>>) -> bool {
    match s {
        Ok(v) => r matches Ok(x) && x == v,
        Err(m) => r matches Err(e) && is_malformed(e, m),
    }
}

fn missing_attr(node: &XmlNode, name: &str) -> (e: TiledImportError)
    ensures
        is_malformed(e, missing_attr_message(node.tag@, name@)),
{
    let mut s = concat3("<", node.tag.as_str(), "> is missing required `");
    s.append(name);
    s.append("` attribute");
    TiledImportError::MalformedMap(s)
}

fn invalid_attr(node: &XmlNode, name: &str, value: &str) -> (e: TiledImportError)
    ensures
        is_malformed(e, invalid_attr_message(node.tag@, name@, value@)),
{
    let mut s = concat3("<", node.tag.as_str(), "> has invalid `");
    s.append(name);
    s.append("` attribute `");
    s.append(value);
    s.append("`");
    TiledImportError::MalformedMap(s)
}

/// A required attribute's value.
pub open spec fn spec_required_attr(n: XmlNode, name: Seq<char>) -> Result<Seq<char>, Seq<char>> {
    match attr_value(n, name) {
        Some(v) => Ok(v),
        None => Err(missing_attr_message(n.tag@, name)),
    }
}

/// Reads a required attribute.
pub fn required_attr<'a>(node: &'a XmlNode, name: &str) -> (r: Result<&'a str, TiledImportError>)
    ensures
        match spec_required_attr(*node, name@) {
            Ok(v) => r matches Ok(x) && x@ == v,
            Err(m) => r matches Err(e) && is_malformed(e, m),
        },
{
    match attribute(node, name) {
        Some(v) => Ok(v),
        None => Err(missing_attr(node, name)),
    }
}

/// An optional unsigned attribute.
pub open spec fn spec_optional_u32_attr(n: XmlNode, name: Seq<char>) -> Result<Option<u32>, Seq<char>> {
    match attr_value(n, name) {
        None => Ok(None),
        Some(v) => match spec_parse_u32(v) {
            Some(x) => Ok(Some(x)),
            None => Err(invalid_attr_message(n.tag@, name, v)),
        },
    }
}

/// A required unsigned attribute.
pub open spec fn spec_required_u32_attr(n: XmlNode, name: Seq<char>) -> Result<u32, Seq<char>> {
    match spec_optional_u32_attr(n, name) {
        Err(m) => Err(m),
        Ok(None) => Err(missing_attr_message(n.tag@, name)),
        Ok(Some(x)) => Ok(x),
    }
}

/// Reads an optional unsigned attribute.
pub fn optional_u32_attr(node: &XmlNode, name: &str) -> (r: Result<Option<u32>, TiledImportError>)
    ensures
        attr_outcome(r, spec_optional_u32_attr(*node, name@)),
{
    match attribute(node, name) {
        None => Ok(None),
        Some(v) => match parse_u32(v) {
            Some(x) => Ok(Some(x)),
            None => Err(invalid_attr(node, name, v)),
        },
    }
}

/// Reads a required unsigned attribute.
pub fn required_u32_attr(node: &XmlNode, name: &str) -> (r: Result<u32, TiledImportError>)
    ensures
        attr_outcome(r, spec_required_u32_attr(*node, name@)),
{
    match optional_u32_attr(node, name)? {
        Some(x) => Ok(x),
        None => Err(missing_attr(node, name)),
    }
}

/// An optional signed attribute.
pub open spec fn spec_optional_i32_attr(n: XmlNode, name: Seq<char>) -> Result<Option<i32>, Seq<char>> {
    match attr_value(n, name) {
        None => Ok(None),
        Some(v) => match spec_parse_i32(v) {
            Some(x) => Ok(Some(x)),
            None => Err(invalid_attr_message(n.tag@, name, v)),
        },
    }
}

/// A required signed attribute.
pub open spec fn spec_required_i32_attr(n: XmlNode, name: Seq<char>) -> Result<i32, Seq<char>> {
    match spec_optional_i32_attr(n, name) {
        Err(m) => Err(m),
        Ok(None) => Err(missing_attr_message(n.tag@, name)),
        Ok(Some(x)) => Ok(x),
    }
}

/// Reads an optional signed attribute.
pub fn optional_i32_attr(node: &XmlNode, name: &str) -> (r: Result<Option<i32>, TiledImportError>)
    ensures
        attr_outcome(r, spec_optional_i32_attr(*node, name@)),
{
    match attribute(node, name) {
        None => Ok(None),
        Some(v) => match parse_i32(v) {
            Some(x) => Ok(Some(x)),
            None => Err(invalid_attr(node, name, v)),
        },
    }
}

/// Reads a required signed attribute.
pub fn required_i32_attr(node: &XmlNode, name: &str) -> (r: Result<i32, TiledImportError>)
    ensures
        attr_outcome(r, spec_required_i32_attr(*node, name@)),
{
    match optional_i32_attr(node, name)? {
        Some(x) => Ok(x),
        None => Err(missing_attr(node, name)),
    }
}

/// A TMX boolean: `1` or `true`, `0` or `false`.
pub open spec fn spec_parse_bool(v: Seq<char>) -> Option<bool> {
    if v == "1"@ || v == "true"@ {
        Some(true)
    } else if v == "0"@ || v == "false"@ {
        Some(false)
    } else {
        None
    }
}

/// An optional boolean attribute.
pub open spec fn spec_optional_bool_attr(n: XmlNode, name: Seq<char>) -> Result<Option<bool>, Seq<char>> {
    match attr_value(n, name) {
        None => Ok(None),
        Some(v) => match spec_parse_bool(v) {
            Some(x) => Ok(Some(x)),
            None => Err(invalid_attr_message(n.tag@, name, v)),
        },
    }
}

/// Reads an optional boolean attribute.
pub fn optional_bool_attr(node: &XmlNode, name: &str) -> (r: Result<Option<bool>, TiledImportError>)
    ensures
        attr_outcome(r, spec_optional_bool_attr(*node, name@)),
{
    match attribute(node, name) {
        None => Ok(None),
        Some(v) => {
            if str_equal(v, "1") || str_equal(v, "true") {
                Ok(Some(true))
            } else if str_equal(v, "0") || str_equal(v, "false") {
                Ok(Some(false))
            } else {
                Err(invalid_attr(node, name, v))
            }
        },
    }
}

/// An optional decimal attribute, checked but not read.
pub open spec fn spec_check_f32_attr(n: XmlNode, name: Seq<char>) -> Result<(), Seq<char>> {
    match attr_value(n, name) {
        None => Ok(()),
        Some(v) => if spec_is_number_text(v) {
            Ok(())
        } else {
            Err(invalid_attr_message(n.tag@, name, v))
        },
    }
}

/// Checks that an optional decimal attribute, where present, is a number.
pub fn check_f32_attr(node: &XmlNode, name: &str) -> (r: Result<(), TiledImportError>)
    ensures
        attr_outcome(r, spec_check_f32_attr(*node, name@)),
{
    match attribute(node, name) {
        None => Ok(()),
        Some(v) => if is_number_text(v) {
            Ok(())
        } else {
            Err(invalid_attr(node, name, v))
        },
    }
}

} // verus!
