//! The document model: nodes in pre-order, each with its depth.

use vstd::prelude::*;
use crate::node_iter::{Attribute, QualName};

verus! {

/// An element: its qualified name and its attributes in document order.
/// A `template` element's contents are a separate document fragment.
#[derive(Debug, PartialEq, Eq)]
pub struct Element {
    pub name: QualName,
    pub attrs: Vec<Attribute>,
    pub template_contents: Option<Dom>,
    pub mathml_annotation_xml_integration_point: bool,
}

/// What a node holds.
#[derive(Debug, PartialEq, Eq)]
pub enum NodeData {
    Document,
    Doctype { name: String, public_id: String, system_id: String },
    Text { contents: String },
    Comment { contents: String },
    Element(Element),
    ProcessingInstruction { target: String, contents: String },
}

/// A node and its depth below the document node.
#[derive(Debug, PartialEq, Eq)]
pub struct DomNode {
    pub depth: usize,
    pub data: NodeData,
}

/// A document tree, listed in pre-order: each node comes before its
/// children, and the children of a node follow it at one more depth.
#[derive(Debug, PartialEq, Eq)]
pub struct Dom {
    pub nodes: Vec<DomNode>,
}

impl Dom {
    /// The list encodes a tree: it starts with the root at depth 0, every
    /// other node lies below it, and no node is more than one level deeper
    /// than the node before it.
    pub open spec fn well_formed(&self) -> bool {
        &&& self.nodes@.len() > 0
        &&& self.nodes@[0].depth == 0
        &&& forall|i: int|
            1 <= i < self.nodes@.len() ==> 1 <= #[trigger] self.nodes@[i].depth <= self.nodes@[i
                - 1].depth + 1
    }

    /// A document holding only its root node.
    pub fn new() -> (r: Dom)
        ensures
            r.well_formed(),
            r.nodes@.len() == 1,
            r.nodes@[0].data is Document,
    {
        let mut nodes: Vec<DomNode> = Vec::new();
        nodes.push(DomNode { depth: 0, data: NodeData::Document });
        Dom { nodes }
    }

    /// Appends `data` as the next node in pre-order, at `depth`.
    pub fn push_node(&mut self, depth: usize, data: NodeData) -> (ok: bool)
        ensures
            ok == (old(self).nodes@.len() > 0 && 1 <= depth <= old(self).nodes@.last().depth + 1),
            ok ==> final(self).nodes@ == old(self).nodes@.push(DomNode { depth, data }),
            !ok ==> final(self).nodes@ == old(self).nodes@,
            old(self).well_formed() ==> final(self).well_formed(),
    {
        let n = self.nodes.len();
        if n == 0 {
            return false;
        }
        let last = self.nodes[n - 1].depth;
        if depth < 1 || depth - 1 > last {
            return false;
        }
        self.nodes.push(DomNode { depth, data });
        true
    }
}

/// Search over the nodes of a document in pre-order.
pub trait NodeIter {
    /// The nodes, in pre-order.
    spec fn preorder(&self) -> Seq<DomNode>;

    /// The position of the first node, in pre-order, for which `predicate`
    /// holds.
    fn find_first<F: Fn(&DomNode) -> bool>(&self, predicate: F) -> (r: Option<usize>)
        requires
            forall|i: int| 0 <= i < self.preorder().len() ==> predicate.requires((&self.preorder()[i],)),
        ensures
            match r {
                Some(i) => {
                    &&& i < self.preorder().len()
                    &&& predicate.ensures((&self.preorder()[i as int],), true)
                    &&& forall|j: int| 0 <= j < i ==> predicate.ensures((&self.preorder()[j],), false)
                },
                None => forall|j: int|
                    0 <= j < self.preorder().len() ==> predicate.ensures((&self.preorder()[j],), false),
            },
    ;
}

impl NodeIter for Dom {
    open spec fn preorder(&self) -> Seq<DomNode> {
        self.nodes@
    }

    fn find_first<F: Fn(&DomNode) -> bool>(&self, predicate: F) -> (r: Option<usize>) {
        let mut i: usize = 0;
        assert forall|k: int| 0 <= k < self.nodes@.len() implies predicate.requires((&self.nodes@[k],)) by {
            assert(self.preorder()[k] == self.nodes@[k]);
        }
        while i < self.nodes.len()
            invariant
                i <= self.nodes@.len(),
                forall|k: int| 0 <= k < self.nodes@.len() ==> predicate.requires((&self.nodes@[k],)),
                forall|j: int| 0 <= j < i ==> predicate.ensures((&self.nodes@[j],), false),
            decreases self.nodes@.len() - i,
        {
            if predicate(&self.nodes[i]) {
                return Some(i);
            }
            i += 1;
        }
        None
    }
}

} // verus!
