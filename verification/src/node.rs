//! Syntax-tree nodes produced by the parser.

use vstd::prelude::*;
use crate::location::Location;

verus! {

/// The classified kind of a syntax-tree node, with its payload. A
/// combinator node carries the canonical textual form of the combinator:
/// a single space, `+`, `>`, `~`, or `/deep/`.
#[derive(Debug, PartialEq, Eq)]
pub enum NodeType {
    Combinator { value: String },
}

/// A syntax-tree element: a kind plus the source location where its
/// production began. Nodes are immutable once returned from a parse
/// function.
#[derive(Debug, PartialEq, Eq)]
pub struct Node {
    pub node_type: NodeType,
    pub location: Location,
}

impl Node {
    pub fn new(node_type: NodeType, location: Location) -> (n: Node)
        ensures
            n.node_type == node_type,
            n.location == location,
    {
        Node { node_type, location }
    }
}

} // verus!
