//! An XML document as the library reads it: the nodes of a parsed document
//! in document order, each with its parent, tag name, text and attributes.
//! Parsing itself is `roxmltree`'s; navigation over the nodes is verified.

use vstd::prelude::*;

use crate::text::{chars_of, str_eq, string_of, trim, trim_chars};

verus! {

/// One attribute of an element.
pub struct XmlAttribute {
    /// The namespace URI, where the attribute has one.
    pub namespace: Option<String>,
    /// The local name.
    pub name: String,
    pub value: String,
}

pub struct XmlAttributeModel {
    pub namespace: Option<Seq<char>>,
    pub name: Seq<char>,
    pub value: Seq<char>,
}

impl View for XmlAttribute {
    type V = XmlAttributeModel;

    open spec fn view(&self) -> XmlAttributeModel {
        XmlAttributeModel {
            namespace: match self.namespace {
                Some(ns) => Some(ns@),
                None => None,
            },
            name: self.name@,
            value: self.value@,
        }
    }
}

/// One node of a document: the document itself, an element, text, a
/// comment or a processing instruction.
pub struct XmlNode {
    /// The node's number within its document.
    pub id: usize,
    /// The number of the parent node; `None` for the document node.
    pub parent: Option<usize>,
    pub is_element: bool,
    /// The local tag name of an element; empty for other nodes.
    pub name: String,
    /// An element's text: that of its first child, where that child is a
    /// text node. A text or comment node's own text.
    pub text: Option<String>,
    pub attributes: Vec<XmlAttribute>,
}

pub struct XmlNodeModel {
    pub id: usize,
    pub parent: Option<usize>,
    pub is_element: bool,
    pub name: Seq<char>,
    pub text: Option<Seq<char>>,
    pub attributes: Seq<XmlAttributeModel>,
}

impl View for XmlNode {
    type V = XmlNodeModel;

    open spec fn view(&self) -> XmlNodeModel {
        XmlNodeModel {
            id: self.id,
            parent: self.parent,
            is_element: self.is_element,
            name: self.name@,
            text: match self.text {
                Some(t) => Some(t@),
                None => None,
            },
            attributes: self.attributes@.map_values(|a: XmlAttribute| a@),
        }
    }
}

/// The nodes of a document by their models.
pub open spec fn nodes_view(nodes: Seq<XmlNode>) -> Seq<XmlNodeModel> {
    nodes.map_values(|x: XmlNode| x@)
}

/// The nodes, in document order, of the document that `roxmltree` parses
/// from the text; `None` where it refuses the text.
pub uninterp spec fn xml_document_nodes(text: Seq<char>) -> Option<Seq<XmlNodeModel>>;

/// Parses XML text with `roxmltree::Document::parse` and lists the
/// document's nodes as `Document::descendants` yields them (document
/// order, the document node first). The contract claims only that the
/// result is `xml_document_nodes` of the text, `None` matching an error.
#[verifier::external_body]
pub(crate) fn parse_xml_nodes(text: &str) -> (r: Result<Vec<XmlNode>, roxmltree::Error>)
    ensures
        match r {
            Ok(nodes) => xml_document_nodes(text@) == Some(nodes_view(nodes@)),
            Err(_) => xml_document_nodes(text@) is None,
        },
{
    let doc = roxmltree::Document::parse(text)?;
    let mut nodes = Vec::new();
    for n in doc.descendants() {
        let mut attributes = Vec::new();
        for a in n.attributes() {
            attributes.push(XmlAttribute { namespace: a.namespace().map(String::from), name: a.name().into(), value: a.value().into() });
        }
        let parent = n.parent().map(|p| p.id().get_usize());
        let text = n.text().map(String::from);
        nodes.push(XmlNode { id: n.id().get_usize(), parent, is_element: n.is_element(), name: n.tag_name().name().into(), text, attributes });
    }
    Ok(nodes)
}

/// Node `j` is an element child of node `p` named `name`. Children follow
/// their parent in document order.
pub open spec fn is_child_named(n: Seq<XmlNodeModel>, p: int, j: int, name: Seq<char>) -> bool {
    &&& 0 <= p < j < n.len()
    &&& n[j].parent == Some(n[p].id)
    &&& n[j].is_element
    &&& n[j].name == name
}

/// Node `j` is an element child of node `p`.
pub open spec fn is_child_element(n: Seq<XmlNodeModel>, p: int, j: int) -> bool {
    &&& 0 <= p < j < n.len()
    &&& n[j].parent == Some(n[p].id)
    &&& n[j].is_element
}

/// The first element child of `p` named `name` at or after node `k`.
pub open spec fn first_child_from(n: Seq<XmlNodeModel>, p: int, name: Seq<char>, k: int) -> Option<
    int,
>
    decreases n.len() - k,
{
    if k < 0 || k >= n.len() {
        None
    } else if is_child_named(n, p, k, name) {
        Some(k)
    } else {
        first_child_from(n, p, name, k + 1)
    }
}

/// The first element child of `p` named `name`.
pub open spec fn child_element(n: Seq<XmlNodeModel>, p: int, name: Seq<char>) -> Option<int> {
    first_child_from(n, p, name, p + 1)
}

/// The text, trimmed, where something is left of it.
pub open spec fn trimmed_nonempty(t: Option<Seq<char>>) -> Option<Seq<char>> {
    match t {
        Some(s) => if trim(s).len() > 0 {
            Some(trim(s))
        } else {
            None
        },
        None => None,
    }
}

/// The trimmed, non-empty text of the first child element named `name`.
pub open spec fn optional_child_text(n: Seq<XmlNodeModel>, p: int, name: Seq<char>) -> Option<
    Seq<char>,
> {
    match child_element(n, p, name) {
        Some(c) => trimmed_nonempty(n[c].text),
        None => None,
    }
}

/// The value of the first attribute without a namespace named `name`.
pub open spec fn attribute_from(attrs: Seq<XmlAttributeModel>, name: Seq<char>, k: int) -> Option<
    Seq<char>,
>
    decreases attrs.len() - k,
{
    if k < 0 || k >= attrs.len() {
        None
    } else if attrs[k].namespace is None && attrs[k].name == name {
        Some(attrs[k].value)
    } else {
        attribute_from(attrs, name, k + 1)
    }
}

pub open spec fn attribute(n: Seq<XmlNodeModel>, i: int, name: Seq<char>) -> Option<Seq<char>> {
    attribute_from(n[i].attributes, name, 0)
}

/// The value of the attribute under the first of `names` that the node
/// has.
pub open spec fn first_attribute(n: Seq<XmlNodeModel>, i: int, names: Seq<Seq<char>>) -> Option<
    Seq<char>,
>
    decreases names.len(),
{
    if names.len() == 0 {
        None
    } else {
        match attribute(n, i, names[0]) {
            Some(v) => Some(v),
            None => first_attribute(n, i, names.drop_first()),
        }
    }
}

/// The trimmed, non-empty value of the attribute under the first of
/// `names` that the node has.
pub open spec fn optional_attr(n: Seq<XmlNodeModel>, i: int, names: Seq<Seq<char>>) -> Option<
    Seq<char>,
> {
    trimmed_nonempty(first_attribute(n, i, names))
}

/// The text trimmed, or `None` where nothing is left.
pub fn trimmed_text(t: &str) -> (r: Option<String>)
    ensures
        match r {
            Some(s) => trimmed_nonempty(Some(t@)) == Some(s@),
            None => trimmed_nonempty(Some(t@)) is None,
        },
{
    let cs = chars_of(t);
    let tc = trim_chars(cs.as_slice());
    if tc.len() == 0 {
        None
    } else {
        Some(string_of(tc.as_slice()))
    }
}

/// The first element child of node `p` named `name`.
pub fn find_child(nodes: &Vec<XmlNode>, p: usize, name: &str) -> (r: Option<usize>)
    requires
        p < nodes.len(),
    ensures
        match r {
            Some(c) => child_element(nodes_view(nodes@), p as int, name@) == Some(c as int) && p < c
                < nodes.len(),
            None => child_element(nodes_view(nodes@), p as int, name@) is None,
        },
{
    let ghost n = nodes_view(nodes@);
    let mut k = p + 1;
    while k < nodes.len()
        invariant
            p < k <= nodes.len(),
            n == nodes_view(nodes@),
            child_element(n, p as int, name@) == first_child_from(n, p as int, name@, k as int),
        decreases nodes.len() - k,
    {
        let node = &nodes[k];
        assert(n[k as int] == node@);
        if node.is_element && node.parent == Some(nodes[p].id) && str_eq(node.name.as_str(), name) {
            return Some(k);
        }
        k = k + 1;
    }
    None
}

/// The trimmed, non-empty text of the first child element named `name`.
pub fn child_text(nodes: &Vec<XmlNode>, p: usize, name: &str) -> (r: Option<String>)
    requires
        p < nodes.len(),
    ensures
        match r {
            Some(s) => optional_child_text(nodes_view(nodes@), p as int, name@) == Some(s@),
            None => optional_child_text(nodes_view(nodes@), p as int, name@) is None,
        },
{
    match find_child(nodes, p, name) {
        Some(c) => {
            proof {
                let n = nodes_view(nodes@);
                assert(n[c as int] == nodes@[c as int]@);
            }
            match &nodes[c].text {
                Some(t) => trimmed_text(t.as_str()),
                None => None,
            }
        },
        None => None,
    }
}

/// The value of the first attribute of node `i` without a namespace and
/// named `name`.
pub fn find_attribute<'a>(nodes: &'a Vec<XmlNode>, i: usize, name: &str) -> (r: Option<&'a String>)
    requires
        i < nodes.len(),
    ensures
        match r {
            Some(v) => attribute(nodes_view(nodes@), i as int, name@) == Some(v@),
            None => attribute(nodes_view(nodes@), i as int, name@) is None,
        },
{
    let attrs = &nodes[i].attributes;
    let ghost am = attrs@.map_values(|a: XmlAttribute| a@);
    assert(nodes_view(nodes@)[i as int].attributes == am);
    let mut k: usize = 0;
    while k < attrs.len()
        invariant
            0 <= k <= attrs.len(),
            am == attrs@.map_values(|a: XmlAttribute| a@),
            i < nodes.len(),
            attrs == &nodes@[i as int].attributes,
            nodes_view(nodes@)[i as int].attributes == am,
            attribute_from(am, name@, 0) == attribute_from(am, name@, k as int),
        decreases attrs.len() - k,
    {
        let a = &attrs[k];
        assert(am[k as int] == a@);
        if a.namespace.is_none() && str_eq(a.name.as_str(), name) {
            return Some(&a.value);
        }
        k = k + 1;
    }
    None
}

/// The trimmed, non-empty value of the attribute under the first of
/// `names` that node `i` has.
pub fn attr_value(nodes: &Vec<XmlNode>, i: usize, names: &[&str]) -> (r: Option<String>)
    requires
        i < nodes.len(),
    ensures
        match r {
            Some(s) => optional_attr(nodes_view(nodes@), i as int, names@.map_values(|s: &str| s@))
                == Some(s@),
            None => optional_attr(nodes_view(nodes@), i as int, names@.map_values(|s: &str| s@)) is None,
        },
{
    let ghost n = nodes_view(nodes@);
    let ghost all = names@.map_values(|s: &str| s@);
    assert(all.skip(0) =~= all);
    let mut k: usize = 0;
    while k < names.len()
        invariant
            0 <= k <= names.len(),
            i < nodes.len(),
            n == nodes_view(nodes@),
            all == names@.map_values(|s: &str| s@),
            first_attribute(n, i as int, all) == first_attribute(n, i as int, all.skip(k as int)),
        decreases names.len() - k,
    {
        assert(all.skip(k as int)[0] == names@[k as int]@);
        assert(all.skip(k as int).drop_first() =~= all.skip(k + 1));
        match find_attribute(nodes, i, names[k]) {
            Some(v) => {
                return trimmed_text(v.as_str());
            },
            None => {},
        }
        k = k + 1;
    }
    assert(all.skip(k as int).len() == 0);
    None
}

/// The trimmed value of the attribute `name`, where the node has it.
pub fn attr(nodes: &Vec<XmlNode>, i: usize, name: &str) -> (r: Option<String>)
    requires
        i < nodes.len(),
    ensures
        match r {
            Some(s) => optional_attr(nodes_view(nodes@), i as int, seq![name@]) == Some(s@),
            None => optional_attr(nodes_view(nodes@), i as int, seq![name@]) is None,
        },
{
    let names = [name];
    let r = attr_value(nodes, i, names.as_slice());
    assert(names@.map_values(|s: &str| s@) =~= seq![name@]);
    r
}

} // verus!
