//! Skeleton building: a dense joint index space over scene-graph nodes, with
//! each joint's parent resolved through the graph's child lists.
use vstd::prelude::*;

use crate::accessor::{
    arrays_match, read_mat4_f32, typed_outcome, Accessor, Buffers, ComponentType, Dimensions,
};
use crate::error::ConvertError;
use crate::scene::{
    graph_parent, is_first_parent, is_first_position, lemma_first_parent_unique,
    lemma_first_position_unique, position, Node,
};

verus! {

/// Largest number of joints that a 16-bit joint index can tell apart.
pub const MAX_JOINTS: usize = 65535;

/// A skin as the scene description gives it.
pub struct SkinDesc {
    pub name: Option<String>,
    /// Global node index of each joint; the order defines the joint indices.
    pub joints: Vec<usize>,
    /// Global node index of the skeleton root.
    pub skeleton: Option<usize>,
    /// Accessor of one `Mat4` of `F32` per joint.
    pub inverse_bind_matrices: Option<Accessor>,
}

/// One bone of a skeleton.
pub struct Joint {
    pub name: String,
    /// Local transform, column-major float bit patterns.
    pub local_transform: [u32; 16],
    /// Inverse bind matrix, column-major float bit patterns.
    pub inverse_bind_matrix: [u32; 16],
    /// Joint index of the parent; `None` for a joint whose parent is no joint.
    pub parent: Option<u16>,
    /// Global node index of the joint.
    pub old_index: usize,
}

/// A skeleton: joints with indices `0..joints.len()`.
pub struct Skin {
    pub name: String,
    /// Joint index of the skeleton root.
    pub root_index: u16,
    pub joints: Vec<Joint>,
}

/// Bit patterns of the 4x4 identity matrix (1.0 is 0x3f80_0000).
pub open spec fn identity_bits() -> Seq<u32> {
    seq![
        0x3f80_0000u32, 0, 0, 0,
        0, 0x3f80_0000u32, 0, 0,
        0, 0, 0x3f80_0000u32, 0,
        0, 0, 0, 0x3f80_0000u32,
    ]
}

/// The parent joint of joint `j`: none for the root; otherwise the joint
/// whose node is the scene-graph parent of joint `j`'s node, if that node is
/// a joint at all.
pub open spec fn joint_parent(nodes: Seq<Node>, joints: Seq<usize>, root: usize, j: int) -> Option<
    u16,
> {
    if joints[j] == root {
        None
    } else {
        match graph_parent(nodes, joints[j]) {
            None => None,
            Some(p) => match position(joints, p as usize) {
                None => None,
                Some(k) => Some(k as u16),
            },
        }
    }
}

/// Chains resolve to their predecessor: when the joints are distinct nodes,
/// joint `k - 1`'s node lists joint `k`'s node among its children and no
/// other node does, joint `k`'s parent is joint `k - 1`; the root (joint 0)
/// has none.
pub proof fn lemma_chain_parent(nodes: Seq<Node>, joints: Seq<usize>, k: int)
    requires
        0 < k < joints.len(),
        joints.len() <= MAX_JOINTS,
        forall|a: int, b: int| 0 <= a < b < joints.len() ==> joints[a] != joints[b],
        joints[k - 1] < nodes.len(),
        nodes[joints[k - 1] as int].children@.contains(joints[k]),
        forall|q: int|
            0 <= q < nodes.len() && q != joints[k - 1] ==> !(#[trigger] nodes[q].children@.contains(
                joints[k],
            )),
    ensures
        joint_parent(nodes, joints, joints[0], k) == Some((k - 1) as u16),
        joint_parent(nodes, joints, joints[0], 0) is None,
{
    let p = joints[k - 1];
    assert(is_first_parent(nodes, joints[k], p as int));
    lemma_first_parent_unique(nodes, joints[k], p as int);
    assert(is_first_position(joints, p, k - 1));
    lemma_first_position_unique(joints, p, k - 1);
}

/// What decoding the inverse bind matrices of a skin gives.
pub open spec fn ibm_outcome(acc: Accessor, bufs: Seq<Seq<u8>>) -> Result<
    Seq<Seq<u32>>,
    ConvertError,
> {
    typed_outcome(acc, bufs, Dimensions::Mat4, acc.component_type == ComponentType::F32)
}

/// Why a skin cannot be built, if it cannot; checked in this order.
pub open spec fn skin_error(desc: SkinDesc, nodes: Seq<Node>, bufs: Seq<Seq<u8>>) -> Option<
    ConvertError,
> {
    let joints = desc.joints@;
    if desc.name is None {
        Some(ConvertError::NoName)
    } else if desc.skeleton is None {
        Some(ConvertError::NoSkeleton)
    } else if joints.len() > MAX_JOINTS {
        Some(ConvertError::TooManyJoints)
    } else if position(joints, desc.skeleton->Some_0) is None {
        Some(ConvertError::NoSkeleton)
    } else if exists|j: int| 0 <= j < joints.len() && #[trigger] joints[j] >= nodes.len() {
        Some(ConvertError::Other)
    } else if exists|j: int| 0 <= j < joints.len() && nodes[#[trigger] joints[j] as int].name is None {
        Some(ConvertError::NoName)
    } else {
        match desc.inverse_bind_matrices {
            None => None,
            Some(acc) => match ibm_outcome(acc, bufs) {
                Err(e) => Some(e),
                Ok(m) => if m.len() != joints.len() {
                    Some(ConvertError::Other)
                } else {
                    None
                },
            },
        }
    }
}

/// Joint `j` of a built skin is what the description and scene graph say.
pub open spec fn joint_built(
    jt: Joint,
    desc: SkinDesc,
    nodes: Seq<Node>,
    bufs: Seq<Seq<u8>>,
    j: int,
) -> bool {
    let n = desc.joints@[j];
    &&& jt.old_index == n
    &&& jt.name@ == nodes[n as int].name->Some_0@
    &&& jt.local_transform == nodes[n as int].transform
    &&& jt.parent == joint_parent(nodes, desc.joints@, desc.skeleton->Some_0, j)
    &&& jt.inverse_bind_matrix@ == match desc.inverse_bind_matrices {
        None => identity_bits(),
        Some(acc) => ibm_outcome(acc, bufs)->Ok_0[j],
    }
}

/// A built skin is what the description and scene graph say.
pub open spec fn skin_built(skin: Skin, desc: SkinDesc, nodes: Seq<Node>, bufs: Seq<Seq<u8>>) -> bool {
    &&& skin.name@ == desc.name->Some_0@
    &&& position(desc.joints@, desc.skeleton->Some_0) == Some(skin.root_index as int)
    &&& skin.joints@.len() == desc.joints@.len()
    &&& skin.wf()
    &&& forall|j: int|
        0 <= j < desc.joints@.len() ==> joint_built(#[trigger] skin.joints@[j], desc, nodes, bufs, j)
}

fn identity_matrix() -> (r: [u32; 16])
    ensures
        r@ == identity_bits(),
{
    let one: u32 = 0x3f80_0000;
    let r = [one, 0, 0, 0, 0, one, 0, 0, 0, 0, one, 0, 0, 0, 0, one];
    assert(r@ =~= identity_bits());
    r
}

/// The first position of `x` in `s`.
fn find_position(s: &Vec<usize>, x: usize) -> (r: Option<usize>)
    ensures
        match r {
            Some(j) => is_first_position(s@, x, j as int),
            None => forall|k: int| 0 <= k < s@.len() ==> #[trigger] s@[k] != x,
        },
{
    let mut i: usize = 0;
    while i < s.len()
        invariant
            0 <= i <= s@.len(),
            forall|k: int| 0 <= k < i ==> #[trigger] s@[k] != x,
        decreases s@.len() - i,
    {
        if s[i] == x {
            return Some(i);
        }
        i += 1;
    }
    None
}

/// For each node below `n_nodes`, its first position among the joints.
fn first_positions(joints: &Vec<usize>, n_nodes: usize) -> (r: Vec<Option<u16>>)
    requires
        joints@.len() <= MAX_JOINTS,
        forall|j: int| 0 <= j < joints@.len() ==> #[trigger] joints@[j] < n_nodes,
    ensures
        r@.len() == n_nodes,
        forall|x: int|
            0 <= x < n_nodes ==> match #[trigger] r@[x] {
                Some(j) => is_first_position(joints@, x as usize, j as int),
                None => forall|k: int| 0 <= k < joints@.len() ==> #[trigger] joints@[k] != x,
            },
{
    let mut table: Vec<Option<u16>> = Vec::new();
    let mut x: usize = 0;
    while x < n_nodes
        invariant
            0 <= x <= n_nodes,
            table@.len() == x,
            forall|y: int| 0 <= y < x ==> #[trigger] table@[y] is None,
        decreases n_nodes - x,
    {
        table.push(None);
        x += 1;
    }
    let mut i: usize = 0;
    while i < joints.len()
        invariant
            0 <= i <= joints@.len(),
            joints@.len() <= MAX_JOINTS,
            forall|j: int| 0 <= j < joints@.len() ==> #[trigger] joints@[j] < n_nodes,
            table@.len() == n_nodes,
            forall|y: int|
                0 <= y < n_nodes ==> match #[trigger] table@[y] {
                    Some(j) => j < i && is_first_position(joints@, y as usize, j as int),
                    None => forall|k: int| 0 <= k < i ==> #[trigger] joints@[k] != y,
                },
        decreases joints@.len() - i,
    {
        let y = joints[i];
        if table[y].is_none() {
            table.set(y, Some(i as u16));
        }
        i += 1;
    }
    table
}

/// No node before `p` lists `c` among its children.
pub open spec fn no_parent_before(nodes: Seq<Node>, c: usize, p: int) -> bool {
    forall|q: int| 0 <= q < p ==> !(#[trigger] nodes[q].children@.contains(c))
}

/// For each node, the first node that lists it among its children.
fn first_parents(nodes: &Vec<Node>) -> (r: Vec<Option<usize>>)
    ensures
        r@.len() == nodes@.len(),
        forall|c: int|
            0 <= c < nodes@.len() ==> match #[trigger] r@[c] {
                Some(p) => is_first_parent(nodes@, c as usize, p as int),
                None => forall|q: int|
                    0 <= q < nodes@.len() ==> !(#[trigger] nodes@[q].children@.contains(c as usize)),
            },
{
    let n = nodes.len();
    let mut table: Vec<Option<usize>> = Vec::new();
    let mut x: usize = 0;
    while x < n
        invariant
            0 <= x <= n,
            table@.len() == x,
            forall|y: int| 0 <= y < x ==> #[trigger] table@[y] is None,
        decreases n - x,
    {
        table.push(None);
        x += 1;
    }
    let mut p: usize = 0;
    while p < n
        invariant
            0 <= p <= n,
            n == nodes@.len(),
            table@.len() == n,
            forall|c: int|
                0 <= c < n ==> match #[trigger] table@[c] {
                    Some(q) => q < p && is_first_parent(nodes@, c as usize, q as int),
                    None => no_parent_before(nodes@, c as usize, p as int),
                },
        decreases n - p,
    {
        let children = &nodes[p].children;
        let mut t: usize = 0;
        while t < children.len()
            invariant
                0 <= t <= children@.len(),
                p < n,
                n == nodes@.len(),
                children@ == nodes@[p as int].children@,
                table@.len() == n,
                forall|c: int|
                    0 <= c < n ==> match #[trigger] table@[c] {
                        Some(q) => q <= p && is_first_parent(nodes@, c as usize, q as int),
                        None => no_parent_before(nodes@, c as usize, p as int) && !children@.take(
                            t as int,
                        ).contains(c as usize),
                    },
            decreases children@.len() - t,
        {
            let c = children[t];
            if c < n && table[c].is_none() {
                table.set(c, Some(p));
                assert(children@.contains(c)) by {
                    assert(children@[t as int] == c);
                }
            }
            proof {
                assert forall|d: int| 0 <= d < n && #[trigger] table@[d] is None implies !children@.take(
                    t + 1,
                ).contains(d as usize) by {
                    if children@.take(t + 1).contains(d as usize) {
                        let w = choose|w: int|
                            0 <= w < t + 1 && #[trigger] children@.take(t + 1)[w] == d as usize;
                        if w < t {
                            assert(children@.take(t as int)[w] == d as usize);
                        }
                    }
                }
            }
            t += 1;
        }
        assert(children@.take(children@.len() as int) =~= children@);
        p += 1;
    }
    table
}

/// Builds the skeleton of a skin.
///
/// Joint `j` is the node `desc.joints[j]`. Its parent is the joint whose node
/// lists it as a child (the first such node), or none when that node is no
/// joint; the skeleton root never has a parent. Without an accessor the
/// inverse bind matrices are identities.
pub fn get_skin(desc: &SkinDesc, nodes: &Vec<Node>, bufs: &Buffers) -> (r: Result<Skin, ConvertError>)
    ensures
        match r {
            Ok(skin) => skin_error(*desc, nodes@, bufs@) is None && skin_built(
                skin,
                *desc,
                nodes@,
                bufs@,
            ),
            Err(e) => skin_error(*desc, nodes@, bufs@) == Some(e),
        },
{
    let name = match &desc.name {
        Some(s) => s.clone(),
        None => {
            return Err(ConvertError::NoName);
        },
    };
    let root = match desc.skeleton {
        Some(root) => root,
        None => {
            return Err(ConvertError::NoSkeleton);
        },
    };
    let count = desc.joints.len();
    if count > MAX_JOINTS {
        return Err(ConvertError::TooManyJoints);
    }
    let root_index = match find_position(&desc.joints, root) {
        Some(j) => {
            proof {
                lemma_first_position_unique(desc.joints@, root, j as int);
            }
            j as u16
        },
        None => {
            return Err(ConvertError::NoSkeleton);
        },
    };
    let mut j: usize = 0;
    while j < count
        invariant
            0 <= j <= count,
            count == desc.joints@.len(),
            count <= MAX_JOINTS,
            desc.name is Some,
            desc.skeleton == Some(root),
            position(desc.joints@, root) is Some,
            forall|k: int| 0 <= k < j ==> #[trigger] desc.joints@[k] < nodes@.len(),
        decreases count - j,
    {
        if desc.joints[j] >= nodes.len() {
            assert(desc.joints@[j as int] >= nodes@.len());
            return Err(ConvertError::Other);
        }
        j += 1;
    }
    let mut j: usize = 0;
    while j < count
        invariant
            0 <= j <= count,
            count == desc.joints@.len(),
            count <= MAX_JOINTS,
            desc.name is Some,
            desc.skeleton == Some(root),
            position(desc.joints@, root) is Some,
            forall|k: int| 0 <= k < count ==> #[trigger] desc.joints@[k] < nodes@.len(),
            forall|k: int|
                0 <= k < j ==> nodes@[#[trigger] desc.joints@[k] as int].name is Some,
        decreases count - j,
    {
        if nodes[desc.joints[j]].name.is_none() {
            assert(nodes@[desc.joints@[j as int] as int].name is None);
            return Err(ConvertError::NoName);
        }
        j += 1;
    }
    let ibms = match &desc.inverse_bind_matrices {
        None => None,
        Some(acc) => match read_mat4_f32(acc, bufs) {
            Ok(m) => {
                if m.len() != count {
                    return Err(ConvertError::Other);
                }
                Some(m)
            },
            Err(e) => {
                return Err(e);
            },
        },
    };
    let joint_of = first_positions(&desc.joints, nodes.len());
    let parent_of = first_parents(nodes);
    let mut joints: Vec<Joint> = Vec::new();
    let mut j: usize = 0;
    while j < count
        invariant
            0 <= j <= count,
            count == desc.joints@.len(),
            count <= MAX_JOINTS,
            desc.skeleton == Some(root),
            forall|k: int| 0 <= k < count ==> #[trigger] desc.joints@[k] < nodes@.len(),
            forall|k: int| 0 <= k < count ==> nodes@[#[trigger] desc.joints@[k] as int].name is Some,
            joint_of@.len() == nodes@.len(),
            forall|x: int|
                0 <= x < nodes@.len() ==> match #[trigger] joint_of@[x] {
                    Some(i) => is_first_position(desc.joints@, x as usize, i as int),
                    None => forall|k: int|
                        0 <= k < desc.joints@.len() ==> #[trigger] desc.joints@[k] != x,
                },
            parent_of@.len() == nodes@.len(),
            forall|c: int|
                0 <= c < nodes@.len() ==> match #[trigger] parent_of@[c] {
                    Some(p) => is_first_parent(nodes@, c as usize, p as int),
                    None => forall|q: int|
                        0 <= q < nodes@.len() ==> !(#[trigger] nodes@[q].children@.contains(
                            c as usize,
                        )),
                },
            match desc.inverse_bind_matrices {
                None => ibms is None,
                Some(acc) => ibms is Some && ibm_outcome(acc, bufs@) is Ok && arrays_match(
                    ibms->Some_0@,
                    ibm_outcome(acc, bufs@)->Ok_0,
                ) && ibms->Some_0@.len() == count,
            },
            joints@.len() == j,
            forall|k: int| 0 <= k < j ==> joint_built(#[trigger] joints@[k], *desc, nodes@, bufs@, k),
        decreases count - j,
    {
        let node_index = desc.joints[j];
        let node = &nodes[node_index];
        let joint_name = match &node.name {
            Some(s) => s.clone(),
            None => String::new(),
        };
        let parent = if node_index == root {
            None
        } else {
            match parent_of[node_index] {
                None => {
                    proof {
                        assert(parent_of@[node_index as int] is None);
                        if graph_parent(nodes@, node_index) is Some {
                            let p = choose|p: int| is_first_parent(nodes@, node_index, p);
                            assert(!nodes@[p].children@.contains((node_index as int) as usize));
                        }
                    }
                    None
                },
                Some(p) => {
                    proof {
                        lemma_first_parent_unique(nodes@, node_index, p as int);
                    }
                    match joint_of[p] {
                        Some(k) => {
                            proof {
                                lemma_first_position_unique(desc.joints@, p, k as int);
                            }
                            Some(k)
                        },
                        None => {
                            proof {
                                if position(desc.joints@, p) is Some {
                                    let k = choose|k: int| is_first_position(desc.joints@, p, k);
                                    assert(desc.joints@[k] != p);
                                }
                            }
                            None
                        },
                    }
                },
            }
        };
        let ibm = match &ibms {
            Some(m) => m[j],
            None => identity_matrix(),
        };
        joints.push(
            Joint {
                name: joint_name,
                local_transform: node.transform,
                inverse_bind_matrix: ibm,
                parent,
                old_index: node_index,
            },
        );
        j += 1;
    }
    Ok(Skin { name, root_index, joints })
}

/// Builds the skeleton of every skin, in order; the first failure aborts.
pub fn get(skins: &Vec<SkinDesc>, nodes: &Vec<Node>, bufs: &Buffers) -> (r: Result<
    Vec<Skin>,
    ConvertError,
>)
    ensures
        match r {
            Ok(v) => v@.len() == skins@.len() && forall|i: int|
                0 <= i < skins@.len() ==> skin_error(#[trigger] skins@[i], nodes@, bufs@) is None
                    && skin_built(v@[i], skins@[i], nodes@, bufs@),
            Err(e) => exists|i: int|
                0 <= i < skins@.len() && skin_error(#[trigger] skins@[i], nodes@, bufs@) == Some(e)
                    && forall|k: int| 0 <= k < i ==> skin_error(#[trigger] skins@[k], nodes@, bufs@) is None,
        },
{
    let mut out: Vec<Skin> = Vec::new();
    let mut i: usize = 0;
    while i < skins.len()
        invariant
            0 <= i <= skins@.len(),
            out@.len() == i,
            forall|k: int|
                0 <= k < i ==> skin_error(#[trigger] skins@[k], nodes@, bufs@) is None && skin_built(
                    out@[k],
                    skins@[k],
                    nodes@,
                    bufs@,
                ),
        decreases skins@.len() - i,
    {
        match get_skin(&skins[i], nodes, bufs) {
            Ok(s) => out.push(s),
            Err(e) => {
                return Err(e);
            },
        }
        i += 1;
    }
    Ok(out)
}

/// The node index of each joint, in joint order.
pub open spec fn old_indices(skin: Skin) -> Seq<usize> {
    skin.joints@.map_values(|jt: Joint| jt.old_index)
}

/// The joint index of node `node` in a skin, if it is one of its joints.
pub open spec fn joint_index_in(skin: Skin, node: usize) -> Option<u16> {
    match position(old_indices(skin), node) {
        Some(j) => Some(j as u16),
        None => None,
    }
}

impl Skin {
    /// Joint indices fit the 16-bit index width.
    pub open spec fn wf(&self) -> bool {
        self.joints@.len() <= MAX_JOINTS
    }

    /// The joint index of the joint whose node is `node_index`: its position
    /// in the joint list.
    pub fn get_joint_index(&self, node_index: usize) -> (r: Option<u16>)
        requires
            self.wf(),
        ensures
            r == joint_index_in(*self, node_index),
    {
        let ghost ids = old_indices(*self);
        let mut i: usize = 0;
        while i < self.joints.len()
            invariant
                0 <= i <= self.joints@.len(),
                self.joints@.len() <= MAX_JOINTS,
                ids == old_indices(*self),
                ids.len() == self.joints@.len(),
                forall|k: int| 0 <= k < i ==> #[trigger] ids[k] != node_index,
            decreases self.joints@.len() - i,
        {
            if self.joints[i].old_index == node_index {
                proof {
                    assert(ids[i as int] == node_index);
                    lemma_first_position_unique(ids, node_index, i as int);
                }
                return Some(i as u16);
            }
            assert(ids[i as int] != node_index);
            i += 1;
        }
        proof {
            if position(ids, node_index) is Some {
                let k = choose|k: int| is_first_position(ids, node_index, k);
                assert(ids[k] != node_index);
            }
        }
        None
    }

    /// The node of joint `joint_index`.
    pub fn get_node_index(&self, joint_index: u16) -> (r: Option<usize>)
        ensures
            r == (if (joint_index as int) < self.joints@.len() {
                Some(self.joints@[joint_index as int].old_index)
            } else {
                None::<usize>
            }),
    {
        if (joint_index as usize) < self.joints.len() {
            Some(self.joints[joint_index as usize].old_index)
        } else {
            None
        }
    }
}

} // verus!
