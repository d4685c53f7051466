//! The scene graph as the converter reads it: nodes by global index.
use vstd::prelude::*;

verus! {

/// One node of the scene graph.
pub struct Node {
    pub name: Option<String>,
    /// Global indices of the node's direct children.
    pub children: Vec<usize>,
    /// Local transform as a column-major matrix of float bit patterns.
    pub transform: [u32; 16],
    /// Index of the mesh the node instantiates, if any.
    pub mesh: Option<usize>,
    /// Index of the skin that deforms the node's mesh, if any.
    pub skin: Option<usize>,
}

/// `p` is the first node (in index order) that lists `c` among its children.
pub open spec fn is_first_parent(nodes: Seq<Node>, c: usize, p: int) -> bool {
    &&& 0 <= p < nodes.len()
    &&& nodes[p].children@.contains(c)
    &&& forall|q: int| 0 <= q < p ==> !(#[trigger] nodes[q].children@.contains(c))
}

/// The scene-graph parent of node `c`: the first node that lists it as a child.
pub open spec fn graph_parent(nodes: Seq<Node>, c: usize) -> Option<int> {
    if exists|p: int| is_first_parent(nodes, c, p) {
        Some(choose|p: int| is_first_parent(nodes, c, p))
    } else {
        None
    }
}

/// `j` is the first position of `x` in `s`.
pub open spec fn is_first_position(s: Seq<usize>, x: usize, j: int) -> bool {
    &&& 0 <= j < s.len()
    &&& s[j] == x
    &&& forall|k: int| 0 <= k < j ==> #[trigger] s[k] != x
}

/// The first position of `x` in `s`, if it occurs.
pub open spec fn position(s: Seq<usize>, x: usize) -> Option<int> {
    if exists|j: int| is_first_position(s, x, j) {
        Some(choose|j: int| is_first_position(s, x, j))
    } else {
        None
    }
}

pub proof fn lemma_first_position_unique(s: Seq<usize>, x: usize, j: int)
    requires
        is_first_position(s, x, j),
    ensures
        position(s, x) == Some(j),
{
    let k = choose|k: int| is_first_position(s, x, k);
    assert(is_first_position(s, x, k));
    if k < j {
        assert(s[k] != x);
    } else if j < k {
        assert(s[j] != x);
    }
}

pub proof fn lemma_first_parent_unique(nodes: Seq<Node>, c: usize, p: int)
    requires
        is_first_parent(nodes, c, p),
    ensures
        graph_parent(nodes, c) == Some(p),
{
    let k = choose|k: int| is_first_parent(nodes, c, k);
    assert(is_first_parent(nodes, c, k));
    if k < p {
        assert(!nodes[k].children@.contains(c));
    } else if p < k {
        assert(!nodes[p].children@.contains(c));
    }
}

} // verus!
