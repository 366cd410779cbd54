//! The generic markup tree that components are parsed from, and reading it from text.
use vstd::prelude::*;
use vstd::string::*;
use crate::attributes::{lookup, names_unique, pairs_view, Attributes};

verus! {

/// An element of the source markup: its tag name, its attributes in source order,
/// and its child nodes.
#[derive(Debug)]
pub struct XmlElement {
    pub tag: String,
    pub attributes: Vec<(String, String)>,
    pub children: Vec<XmlNode>,
}

/// A node of the source markup.
#[derive(Debug)]
pub enum XmlNode {
    Element(XmlElement),
    Text(String),
    Comment(String),
}

/// The attributes of `el`, as plain pairs.
pub open spec fn element_pairs(el: XmlElement) -> Seq<(Seq<char>, Seq<char>)> {
    pairs_view(el.attributes@)
}

/// `top` laid over `base`: a name that `top` gives keeps that value, others keep `base`'s.
pub open spec fn overlay(
    base: Seq<(Seq<char>, Seq<char>)>,
    top: Seq<(Seq<char>, Seq<char>)>,
    key: Seq<char>,
) -> Option<Seq<char>> {
    match lookup(top, key) {
        Some(v) => Some(v),
        None => lookup(base, key),
    }
}

/// Sets every attribute of `node` in `res`; the node's values win over those already there.
pub fn add_node_attributes(res: &mut Attributes, node: &XmlElement)
    ensures
        forall|k: Seq<char>|
            #![trigger lookup(final(res)@, k)]
            lookup(final(res)@, k) == overlay(old(res)@, element_pairs(*node), k),
        names_unique(element_pairs(*node)) && old(res)@.len() == 0 ==> final(res)@ == element_pairs(
            *node,
        ),
        names_unique(final(res)@),
{
    let n = node.attributes.len();
    let ghost base = res@;
    let ghost pairs = element_pairs(*node);
    let mut i: usize = 0;
    proof {
        use_type_invariant(&*res);
    }
    while i < n
        invariant
            n == node.attributes@.len(),
            pairs == element_pairs(*node),
            i <= n,
            forall|k: Seq<char>|
                #![trigger lookup(res@, k)]
                lookup(res@, k) == overlay(base, pairs.subrange(0, i as int), k),
            names_unique(pairs) && base.len() == 0 ==> res@ == pairs.subrange(0, i as int),
            names_unique(res@),
        decreases n - i,
    {
        let ghost before = res@;
        let e = &node.attributes[i];
        res.set(e.0.as_str(), e.1.as_str());
        proof {
            let s = pairs.subrange(0, i + 1);
            assert(s.drop_last() =~= pairs.subrange(0, i as int));
            assert(s.last() == (e.0@, e.1@));
            assert forall|k: Seq<char>| #[trigger]
                lookup(res@, k) == overlay(base, s, k) by {
                assert(lookup(res@, k) == if k == e.0@ {
                    Some(e.1@)
                } else {
                    lookup(before, k)
                });
            }
            if names_unique(pairs) && base.len() == 0 {
                assert forall|j: int| 0 <= j < before.len() implies before[j].0 != e.0@ by {
                    assert(pairs[j].0 != pairs[i as int].0);
                }
                crate::attributes::lemma_lookup_absent(before, e.0@);
                assert(res@ =~= s);
            }
        }
        i = i + 1;
    }
    assert(pairs.subrange(0, n as int) =~= pairs);
}

/// The attributes of `node`, in source order.
pub fn get_node_attributes(node: &XmlElement) -> (r: Attributes)
    ensures
        forall|k: Seq<char>|
            #![trigger lookup(r@, k)]
            lookup(r@, k) == lookup(element_pairs(*node), k),
        names_unique(element_pairs(*node)) ==> r@ == element_pairs(*node),
        names_unique(r@),
{
    let mut r = Attributes::new();
    add_node_attributes(&mut r, node);
    proof {
        assert forall|k: Seq<char>| #[trigger] lookup(r@, k) == lookup(element_pairs(*node), k) by {
            crate::attributes::lemma_lookup_absent(Seq::empty(), k);
        }
    }
    r
}

/// The text that a node holds directly: that of a text or comment node, or of an
/// element's first child when it is text; else the empty string.
pub fn get_node_text(node: &XmlNode) -> (r: String)
    ensures
        node matches XmlNode::Text(t) ==> r@ == t@,
        node matches XmlNode::Comment(t) ==> r@ == t@,
{
    match node {
        XmlNode::Text(t) => t.clone(),
        XmlNode::Comment(t) => t.clone(),
        XmlNode::Element(el) => {
            if el.children.len() > 0 {
                match &el.children[0] {
                    XmlNode::Text(t) => t.clone(),
                    _ => String::new(),
                }
            } else {
                String::new()
            }
        },
    }
}

#[verifier::external_type_specification]
#[verifier::external_body]
pub struct ExRoxNode<'a, 'input: 'a>(roxmltree::Node<'a, 'input>);

/// Relies on roxmltree's `Node` accessors (`is_comment`, `is_text`, `text`, `tag_name`,
/// `attributes`, `children`) to copy the node and its subtree into plain values.
#[verifier::external_body]
fn copy_node(node: roxmltree::Node) -> (r: XmlNode) {
    if node.is_comment() {
        XmlNode::Comment(node.text().unwrap_or("").to_string())
    } else if node.is_text() {
        XmlNode::Text(node.text().unwrap_or("").to_string())
    } else {
        XmlNode::Element(XmlElement {
            tag: node.tag_name().name().to_string(),
            attributes: node.attributes().map(|a| (a.name().to_string(), a.value().to_string())).collect(),
            children: node.children().map(copy_node).collect(),
        })
    }
}

/// The root element that roxmltree reads from `text`, or `None` where the text is not
/// well-formed; it depends on the text alone.
pub uninterp spec fn markup_root(text: Seq<char>) -> Option<XmlNode>;

/// Relies on `roxmltree::Document::parse` and `Document::root_element`: well-formed text
/// gives its root element (always an element), else the parser's error message.
#[verifier::external_body]
fn parse_document(text: &str) -> (r: Result<XmlNode, String>)
    ensures
        r matches Ok(n) ==> n is Element && markup_root(text@) == Some(n),
        r is Err <==> markup_root(text@) is None,
{
    match roxmltree::Document::parse(text) {
        Ok(doc) => Ok(copy_node(doc.root_element())),
        Err(e) => Err(e.to_string()),
    }
}

/// Reads markup text into its root element.
pub fn read_markup(text: &str) -> (r: Result<XmlElement, crate::context::Error>)
    ensures
        markup_root(text@) is None ==> r matches Err(crate::context::Error::MarkupError(_)),
        markup_root(text@) matches Some(x) ==> r matches Ok(el) && x == XmlNode::Element(el),
{
    match parse_document(text) {
        Ok(XmlNode::Element(el)) => Ok(el),
        Ok(_) => Err(crate::context::Error::MarkupError(String::new())),
        Err(msg) => Err(crate::context::Error::MarkupError(msg)),
    }
}

} // verus!
