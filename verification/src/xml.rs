//! The nodes of an XML document, as a table.
//!
//! A parsed document is handed over as the list of its nodes in document
//! order, the root node first. A node names its parent by the parent's
//! place in the list, so the children of a node are the nodes that name
//! it, in the order of the list.

use vstd::prelude::*;

verus! {

/// Why a text is no XML document.
#[verifier::external_type_specification]
#[verifier::external_body]
pub struct ExXmlError(roxmltree::Error);

/// One node of a document.
#[derive(Debug)]
pub struct XmlNode {
    /// The place of the parent in the list; `None` for the root node.
    pub parent: Option<usize>,
    /// Whether the node is an element, and not text, a comment or the like.
    pub is_element: bool,
    /// The namespace of an element's tag, if it has one.
    pub namespace: Option<String>,
    /// The local name of an element's tag; empty for other nodes.
    pub name: String,
    /// The node's text: for an element that of its first child if that
    /// child is text, for a text node or a comment its own.
    pub text: Option<String>,
}

/// An `XmlNode` as plain values.
pub struct XmlNodeView {
    pub parent: Option<usize>,
    pub is_element: bool,
    pub namespace: Option<Seq<char>>,
    pub name: Seq<char>,
    pub text: Option<Seq<char>>,
}

impl View for XmlNode {
    type V = XmlNodeView;

    open spec fn view(&self) -> XmlNodeView {
        XmlNodeView {
            parent: self.parent,
            is_element: self.is_element,
            namespace: match self.namespace {
                Some(namespace) => Some(namespace@),
                None => None,
            },
            name: self.name@,
            text: match self.text {
                Some(text) => Some(text@),
                None => None,
            },
        }
    }
}

/// The views of a list of nodes.
pub open spec fn node_views(nodes: Seq<XmlNode>) -> Seq<XmlNodeView> {
    Seq::new(nodes.len(), |i: int| nodes[i]@)
}

/// The nodes of the document that `text` is, in document order; `None`
/// where `text` is no well-formed document.
pub uninterp spec fn xml_nodes(text: Seq<char>) -> Option<Seq<XmlNodeView>>;

/// Parses a document with `roxmltree::Document::parse` and lists its nodes
/// as `Document::descendants` yields them, which is in document order and
/// starts with the root node. Of every node it records what
/// `Node::parent`, `Node::is_element`, `Node::tag_name` and `Node::text`
/// return, the parent as the number that `NodeId::get_usize` gives, which
/// is the parent's place in the list.
///
/// Nothing is claimed of the nodes but that they depend on the text alone.
#[verifier::external_body]
pub(crate) fn parse_nodes(text: &str) -> (r: Result<Vec<XmlNode>, roxmltree::Error>)
    ensures
        match r {
            Ok(nodes) => xml_nodes(text@) == Some(node_views(nodes@)),
            Err(_) => xml_nodes(text@) is None,
        },
{
    let document = roxmltree::Document::parse(text)?;
    Ok(document.descendants().map(|node| XmlNode {
        parent: node.parent().map(|parent| parent.id().get_usize()),
        is_element: node.is_element(),
        namespace: node.tag_name().namespace().map(str::to_owned),
        name: node.tag_name().name().to_owned(),
        text: node.text().map(str::to_owned),
    }).collect())
}

} // verus!
