//! The document tree that box generation reads.

use vstd::prelude::*;

verus! {

/// A node of a document tree.
///
/// `addr` identifies the node (callers use the address of their own DOM
/// node); it becomes the key under which the node's box is found.
#[derive(Debug)]
pub enum DomNode {
    /// An element with its (case-preserved) local name and children.
    Element { addr: usize, local_name: String, children: Vec<DomNode> },
    /// A text node with its character data.
    Text { addr: usize, data: String },
    /// Any other node (document, fragment, comment, doctype, processing
    /// instruction) with its children.
    Other { children: Vec<DomNode> },
}

impl DomNode {
    /// An element node.
    pub fn element(addr: usize, local_name: &str, children: Vec<DomNode>) -> (r: DomNode)
        ensures
            r matches DomNode::Element { addr: a, local_name: n, children: c } && a == addr && n@
                == local_name@ && c@ == children@,
    {
        DomNode::Element { addr, local_name: local_name.to_owned(), children }
    }

    /// A text node.
    pub fn text(addr: usize, data: &str) -> (r: DomNode)
        ensures
            r matches DomNode::Text { addr: a, data: d } && a == addr && d@ == data@,
    {
        DomNode::Text { addr, data: data.to_owned() }
    }

    /// A node that is neither an element nor text.
    pub fn other(children: Vec<DomNode>) -> (r: DomNode)
        ensures
            r matches DomNode::Other { children: c } && c@ == children@,
    {
        DomNode::Other { children }
    }
}

} // verus!
