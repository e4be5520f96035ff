//! The in-memory model of a vector drawing.
//!
//! The drawing is an arena of nodes in document (pre-order) order; each
//! node points to its parent, which always has a smaller index.  Node 0
//! is the document root and carries no geometry.  Walking the nodes in
//! index order is exactly a depth-first pre-order traversal, and a
//! node's accumulated transform is its parent's accumulated transform
//! with its own operations appended.

use vstd::prelude::*;

use crate::transform::{ops_wf, TransformList, TransformOp};
use crate::vec2::Vec2;

verus! {

/// The geometry of one node, with every coordinate an exact rational.
///
/// Required numeric attributes that were absent or not numeric in the
/// drawing are `None`; reading one is a fatal error.
#[derive(Clone, Debug)]
pub enum Shape {
    Group,
    Circle { center: Option<Vec2> },
    Rect { pos: Option<Vec2>, size: Option<Vec2> },
    Path { verts: Option<Vec<Vec2>> },
    Other,
}

pub open spec fn shape_wf(s: Shape) -> bool {
    match s {
        Shape::Group => true,
        Shape::Circle { center } => center matches Some(c) ==> c.wf(),
        Shape::Rect { pos, size } => (pos matches Some(p) ==> p.wf()) && (size matches Some(
            sz,
        ) ==> sz.wf()),
        Shape::Path { verts } => verts matches Some(vs) ==> forall|i: int|
            0 <= i < vs@.len() ==> (#[trigger] vs@[i]).wf(),
        Shape::Other => true,
    }
}

/// One node of the drawing.
#[derive(Clone, Debug)]
pub struct Node {
    /// Index of the parent node; strictly smaller than the node's own
    /// index (the root points to itself).
    pub parent: usize,
    pub shape: Shape,
    /// The operations of this node's own transform attribute.
    pub ops: Vec<TransformOp>,
    /// The tool-namespaced label, as on route groups and start points.
    pub route_label: Option<Vec<u8>>,
    /// The plain label, as on shelf markers (`"<corridor>-<shelf>"`).
    pub marker_label: Option<Vec<u8>>,
    /// Whether the node carries the position-marker attribute set true.
    pub is_marker: bool,
}

pub open spec fn node_wf(n: Node) -> bool {
    shape_wf(n.shape) && ops_wf(n.ops@)
}

/// The whole drawing.
#[derive(Debug)]
pub struct Document {
    pub nodes: Vec<Node>,
}

/// Accumulated transform operations of node `i`: the parent's
/// accumulated operations with the node's own appended at the end.
pub open spec fn acc_ops(nodes: Seq<Node>, i: int) -> Seq<TransformOp>
    decreases i,
{
    if i <= 0 || i >= nodes.len() {
        if nodes.len() > 0 {
            nodes[0].ops@
        } else {
            Seq::<TransformOp>::empty()
        }
    } else if nodes[i].parent < i {
        acc_ops(nodes, nodes[i].parent as int) + nodes[i].ops@
    } else {
        nodes[i].ops@
    }
}

impl Document {
    /// Well-formed arena: a root without geometry, parents before
    /// children, and all numeric payloads well formed.
    pub open spec fn wf(self) -> bool {
        &&& self.nodes@.len() >= 1
        &&& self.nodes@[0].parent == 0
        &&& forall|i: int|
            1 <= i < self.nodes@.len() ==> (#[trigger] self.nodes@[i]).parent < i
        &&& forall|i: int| 0 <= i < self.nodes@.len() ==> node_wf(#[trigger] self.nodes@[i])
    }

    /// A fresh document holding only the root.
    pub fn new() -> (r: Document)
        ensures
            r.wf(),
            r.nodes@.len() == 1,
    {
        let root = Node {
            parent: 0,
            shape: Shape::Other,
            ops: Vec::new(),
            route_label: None,
            marker_label: None,
            is_marker: false,
        };
        let mut nodes: Vec<Node> = Vec::new();
        nodes.push(root);
        Document { nodes }
    }

    /// Append a node in document order under an existing parent and
    /// return its index.
    pub fn add_node(&mut self, node: Node) -> (r: usize)
        requires
            old(self).wf(),
            node.parent < old(self).nodes@.len(),
            node_wf(node),
        ensures
            final(self).wf(),
            final(self).nodes@ == old(self).nodes@.push(node),
            r == old(self).nodes@.len(),
    {
        let r = self.nodes.len();
        self.nodes.push(node);
        r
    }

    /// The accumulated transform of every node, indexed like the arena.
    pub fn accumulated(&self) -> (r: Vec<TransformList>)
        requires
            self.wf(),
        ensures
            r@.len() == self.nodes@.len(),
            forall|i: int|
                0 <= i < r@.len() ==> (#[trigger] r@[i]).transforms@ == acc_ops(self.nodes@, i),
            forall|i: int| 0 <= i < r@.len() ==> (#[trigger] r@[i]).wf(),
    {
        let ghost nodes = self.nodes@;
        let n = self.nodes.len();
        let mut lists: Vec<TransformList> = Vec::new();
        let root_list = TransformList { transforms: copy_ops(&self.nodes[0].ops) };
        lists.push(root_list);
        let mut i: usize = 1;
        while i < n
            invariant
                1 <= i <= n,
                n == nodes.len(),
                nodes == self.nodes@,
                self.wf(),
                lists@.len() == i,
                forall|k: int|
                    0 <= k < i ==> (#[trigger] lists@[k]).transforms@ == acc_ops(nodes, k),
                forall|k: int| 0 <= k < i ==> (#[trigger] lists@[k]).wf(),
            decreases n - i,
        {
            let parent = self.nodes[i].parent;
            let mut list = copy_ops(&lists[parent].transforms);
            let own = &self.nodes[i].ops;
            let mut j: usize = 0;
            while j < own.len()
                invariant
                    0 <= j <= own.len(),
                    own == &self.nodes@[i as int].ops,
                    self.wf(),
                    i < nodes.len(),
                    nodes == self.nodes@,
                    list@ == acc_ops(nodes, nodes[i as int].parent as int) + own@.take(j as int),
                decreases own.len() - j,
            {
                list.push(own[j]);
                proof {
                    assert(own@.take(j as int + 1) =~= own@.take(j as int).push(own@[j as int]));
                }
                j = j + 1;
            }
            proof {
                assert(own@.take(own@.len() as int) =~= own@);
            }
            lists.push(TransformList { transforms: list });
            i = i + 1;
        }
        lists
    }
}

/// Copy a list of operations element by element.
pub fn copy_ops(v: &Vec<TransformOp>) -> (r: Vec<TransformOp>)
    ensures
        r@ == v@,
{
    let mut r: Vec<TransformOp> = Vec::new();
    let mut i: usize = 0;
    while i < v.len()
        invariant
            0 <= i <= v.len(),
            r@ == v@.take(i as int),
        decreases v.len() - i,
    {
        r.push(v[i]);
        proof {
            assert(v@.take(i as int + 1) =~= v@.take(i as int).push(v@[i as int]));
        }
        i = i + 1;
    }
    proof {
        assert(v@.take(v@.len() as int) =~= v@);
    }
    r
}

/// Byte-sequence equality, used for label comparisons.
pub fn bytes_eq(a: &Vec<u8>, b: &Vec<u8>) -> (r: bool)
    ensures
        r == (a@ =~= b@),
{
    if a.len() != b.len() {
        return false;
    }
    let mut i: usize = 0;
    while i < a.len()
        invariant
            0 <= i <= a.len(),
            a@.len() == b@.len(),
            forall|k: int| 0 <= k < i ==> a@[k] == b@[k],
        decreases a.len() - i,
    {
        if a[i] != b[i] {
            return false;
        }
        i = i + 1;
    }
    true
}

} // verus!
