//! Models: the meshes instantiated by the nodes of a scene, in depth-first
//! order of the scene graph.
use vstd::prelude::*;

use crate::accessor::Buffers;
use crate::error::ConvertError;
use crate::material::Materials;
use crate::mesh::{get as get_mesh, mesh_built, mesh_fails_with, mesh_ok, Mesh, MeshDesc};
use crate::scene::Node;

verus! {

/// A mesh instantiated by a node of the scene.
pub struct Model {
    pub mesh: Mesh,
    /// Global index of the node that instantiates the mesh.
    pub node: usize,
}

/// The nodes of the subtree of `n` in depth-first pre-order, where no path
/// may be longer than `depth` nodes. A child index out of range, or a path
/// that is too long (the graph has a cycle), is an error.
pub open spec fn visit_outcome(nodes: Seq<Node>, n: usize, depth: nat) -> Result<
    Seq<usize>,
    ConvertError,
>
    decreases depth, 0nat,
{
    if n >= nodes.len() || depth == 0 {
        Err(ConvertError::Other)
    } else {
        match visit_list_outcome(nodes, nodes[n as int].children@, (depth - 1) as nat) {
            Ok(s) => Ok(seq![n] + s),
            Err(e) => Err(e),
        }
    }
}

/// The subtrees of the nodes `cs`, one after the other.
pub open spec fn visit_list_outcome(nodes: Seq<Node>, cs: Seq<usize>, depth: nat) -> Result<
    Seq<usize>,
    ConvertError,
>
    decreases depth, cs.len(),
{
    if cs.len() == 0 {
        Ok(seq![])
    } else {
        match visit_list_outcome(nodes, cs.drop_last(), depth) {
            Err(e) => Err(e),
            Ok(a) => match visit_outcome(nodes, cs[cs.len() - 1], depth) {
                Err(e) => Err(e),
                Ok(b) => Ok(a + b),
            },
        }
    }
}

/// The nodes of `order` that instantiate a mesh, in order.
pub open spec fn mesh_nodes(nodes: Seq<Node>, order: Seq<usize>) -> Seq<usize>
    decreases order.len(),
{
    if order.len() == 0 {
        seq![]
    } else {
        let rest = mesh_nodes(nodes, order.drop_last());
        let n = order[order.len() - 1];
        if nodes[n as int].mesh is Some {
            rest.push(n)
        } else {
            rest
        }
    }
}

/// A node with a mesh can become a model: it is named, its mesh exists and
/// converts (with bones when the node is skinned).
pub open spec fn model_ok(
    nodes: Seq<Node>,
    meshes: Seq<MeshDesc>,
    bufs: Seq<Seq<u8>>,
    materials: Materials,
    n: usize,
) -> bool {
    let node = nodes[n as int];
    let m = node.mesh->Some_0;
    &&& node.name is Some
    &&& m < meshes.len()
    &&& mesh_ok(meshes[m as int], node.skin is Some, bufs, materials)
}

/// The mesh node `n` cannot become a model, and fails with `e`: an unnamed
/// node gives `NoName`, a mesh index out of range `Other`, else the error of
/// the mesh's first failing primitive.
pub open spec fn model_fails_with(
    nodes: Seq<Node>,
    meshes: Seq<MeshDesc>,
    bufs: Seq<Seq<u8>>,
    materials: Materials,
    n: usize,
    e: ConvertError,
) -> bool {
    let node = nodes[n as int];
    let m = node.mesh->Some_0;
    if node.name is None {
        e == ConvertError::NoName
    } else if m >= meshes.len() {
        e == ConvertError::Other
    } else {
        mesh_fails_with(meshes[m as int], node.skin is Some, bufs, materials, e)
    }
}

fn visit(nodes: &Vec<Node>, n: usize, depth: usize, out: &mut Vec<usize>) -> (r: Result<
    (),
    ConvertError,
>)
    ensures
        match visit_outcome(nodes@, n, depth as nat) {
            Ok(s) => r is Ok && final(out)@ == old(out)@ + s,
            Err(e) => r == Err::<(), ConvertError>(e),
        },
    decreases depth,
{
    if n >= nodes.len() || depth == 0 {
        return Err(ConvertError::Other);
    }
    let ghost start = out@;
    out.push(n);
    let children = &nodes[n].children;
    let mut i: usize = 0;
    assert(children@.take(0) =~= Seq::<usize>::empty());
    while i < children.len()
        invariant
            0 <= i <= children@.len(),
            0 < depth,
            n < nodes@.len(),
            children@ == nodes@[n as int].children@,
            visit_list_outcome(nodes@, children@.take(i as int), (depth - 1) as nat) is Ok,
            out@ == start + seq![n] + visit_list_outcome(
                nodes@,
                children@.take(i as int),
                (depth - 1) as nat,
            )->Ok_0,
        decreases children@.len() - i,
    {
        let c = children[i];
        assert(children@.take(i + 1).drop_last() =~= children@.take(i as int));
        assert(children@.take(i + 1)[i as int] == c);
        match visit(nodes, c, depth - 1, out) {
            Ok(()) => {},
            Err(e) => {
                assert(children@.take(children@.len() as int) =~= children@);
                proof {
                    lemma_list_err_prefix(
                        nodes@,
                        children@,
                        (i + 1) as int,
                        (depth - 1) as nat,
                    );
                }
                return Err(e);
            },
        }
        assert(out@ =~= start + seq![n] + visit_list_outcome(
            nodes@,
            children@.take(i + 1),
            (depth - 1) as nat,
        )->Ok_0);
        i += 1;
    }
    assert(children@.take(children@.len() as int) =~= children@);
    assert(out@ =~= start + (seq![n] + visit_list_outcome(
        nodes@,
        children@,
        (depth - 1) as nat,
    )->Ok_0));
    Ok(())
}

/// A failure in a prefix of the list is the failure of the whole list.
proof fn lemma_list_err_prefix(nodes: Seq<Node>, cs: Seq<usize>, j: int, depth: nat)
    requires
        0 <= j <= cs.len(),
        visit_list_outcome(nodes, cs.take(j), depth) is Err,
    ensures
        visit_list_outcome(nodes, cs, depth) == visit_list_outcome(nodes, cs.take(j), depth),
    decreases cs.len() - j,
{
    if j < cs.len() {
        assert(cs.take(j + 1).drop_last() =~= cs.take(j));
        lemma_list_err_prefix(nodes, cs, j + 1, depth);
    } else {
        assert(cs.take(j) =~= cs);
    }
}

proof fn lemma_visit_in_range(nodes: Seq<Node>, n: usize, depth: nat)
    requires
        visit_outcome(nodes, n, depth) is Ok,
    ensures
        forall|k: int|
            0 <= k < visit_outcome(nodes, n, depth)->Ok_0.len() ==> (#[trigger] visit_outcome(
                nodes,
                n,
                depth,
            )->Ok_0[k]) < nodes.len(),
    decreases depth, 0nat,
{
    lemma_list_in_range(nodes, nodes[n as int].children@, (depth - 1) as nat);
}

proof fn lemma_list_in_range(nodes: Seq<Node>, cs: Seq<usize>, depth: nat)
    requires
        visit_list_outcome(nodes, cs, depth) is Ok,
    ensures
        forall|k: int|
            0 <= k < visit_list_outcome(nodes, cs, depth)->Ok_0.len() ==> (
            #[trigger] visit_list_outcome(nodes, cs, depth)->Ok_0[k]) < nodes.len(),
    decreases depth, cs.len(),
{
    if cs.len() > 0 {
        lemma_list_in_range(nodes, cs.drop_last(), depth);
        lemma_visit_in_range(nodes, cs[cs.len() - 1], depth);
        let a = visit_list_outcome(nodes, cs.drop_last(), depth)->Ok_0;
        let b = visit_outcome(nodes, cs[cs.len() - 1], depth)->Ok_0;
        assert forall|k: int| 0 <= k < (a + b).len() implies #[trigger] (a + b)[k] < nodes.len() by {
            if k < a.len() {
                assert((a + b)[k] == a[k]);
            } else {
                assert((a + b)[k] == b[k - a.len()]);
            }
        }
    }
}

/// The mesh nodes of a prefix are a prefix of the mesh nodes.
proof fn lemma_mesh_nodes_prefix(nodes: Seq<Node>, s: Seq<usize>, j: int)
    requires
        0 <= j <= s.len(),
    ensures
        mesh_nodes(nodes, s.take(j)).len() <= mesh_nodes(nodes, s).len(),
        forall|k: int|
            0 <= k < mesh_nodes(nodes, s.take(j)).len() ==> #[trigger] mesh_nodes(nodes, s.take(j))[k]
                == mesh_nodes(nodes, s)[k],
    decreases s.len() - j,
{
    if j < s.len() {
        lemma_mesh_nodes_prefix(nodes, s, j + 1);
        assert(s.take(j + 1).drop_last() =~= s.take(j));
        let short = mesh_nodes(nodes, s.take(j));
        let long = mesh_nodes(nodes, s.take(j + 1));
        assert forall|k: int| 0 <= k < short.len() implies #[trigger] short[k] == long[k] by {}
    } else {
        assert(s.take(j) =~= s);
    }
}

/// The node just taken from `order` is a mesh node that fails to become a model.
proof fn lemma_model_fails(
    nodes: Seq<Node>,
    meshes: Seq<MeshDesc>,
    bufs: Seq<Seq<u8>>,
    materials: Materials,
    full: Seq<usize>,
    i: int,
)
    requires
        0 <= i < full.len(),
        nodes[full[i] as int].mesh is Some,
        !model_ok(nodes, meshes, bufs, materials, full[i]),
    ensures
        !(forall|k: int|
            0 <= k < mesh_nodes(nodes, full).len() ==> model_ok(
                nodes,
                meshes,
                bufs,
                materials,
                #[trigger] mesh_nodes(nodes, full)[k],
            )),
{
    lemma_mesh_nodes_prefix(nodes, full, i + 1);
    assert(full.take(i + 1).drop_last() =~= full.take(i));
    assert(full.take(i + 1)[i] == full[i]);
    let mn = mesh_nodes(nodes, full.take(i + 1));
    let k = mn.len() - 1;
    assert(mn[k] == full[i]);
    assert(mesh_nodes(nodes, full)[k] == full[i]);
}

/// The node just taken from `order` is the first mesh node that fails, with `e`.
proof fn lemma_first_model_fails(
    nodes: Seq<Node>,
    meshes: Seq<MeshDesc>,
    bufs: Seq<Seq<u8>>,
    materials: Materials,
    full: Seq<usize>,
    i: int,
    e: ConvertError,
)
    requires
        0 <= i < full.len(),
        nodes[full[i] as int].mesh is Some,
        model_fails_with(nodes, meshes, bufs, materials, full[i], e),
        forall|k: int|
            0 <= k < mesh_nodes(nodes, full.take(i)).len() ==> model_ok(
                nodes,
                meshes,
                bufs,
                materials,
                #[trigger] mesh_nodes(nodes, full.take(i))[k],
            ),
    ensures
        exists|k: int|
            0 <= k < mesh_nodes(nodes, full).len() && model_fails_with(
                nodes,
                meshes,
                bufs,
                materials,
                #[trigger] mesh_nodes(nodes, full)[k],
                e,
            ) && forall|j: int|
                0 <= j < k ==> model_ok(
                    nodes,
                    meshes,
                    bufs,
                    materials,
                    #[trigger] mesh_nodes(nodes, full)[j],
                ),
{
    lemma_mesh_nodes_prefix(nodes, full, i + 1);
    assert(full.take(i + 1).drop_last() =~= full.take(i));
    assert(full.take(i + 1)[i] == full[i]);
    let before = mesh_nodes(nodes, full.take(i));
    let mn = mesh_nodes(nodes, full.take(i + 1));
    assert(mn == before.push(full[i]));
    let k = mn.len() - 1;
    assert(mn[k] == full[i]);
    assert(mesh_nodes(nodes, full)[k] == full[i]);
    assert forall|j: int| 0 <= j < k implies model_ok(
        nodes,
        meshes,
        bufs,
        materials,
        #[trigger] mesh_nodes(nodes, full)[j],
    ) by {
        assert(mn[j] == before[j]);
        assert(mn[j] == mesh_nodes(nodes, full)[j]);
    }
}

/// The scene's nodes in depth-first pre-order, root by root.
pub fn scene_order(roots: &Vec<usize>, nodes: &Vec<Node>) -> (r: Result<Vec<usize>, ConvertError>)
    ensures
        match visit_list_outcome(nodes@, roots@, nodes@.len()) {
            Ok(s) => r is Ok && r->Ok_0@ == s,
            Err(e) => r == Err::<Vec<usize>, ConvertError>(e),
        },
{
    let depth = nodes.len();
    let mut out: Vec<usize> = Vec::new();
    let mut i: usize = 0;
    assert(roots@.take(0) =~= Seq::<usize>::empty());
    while i < roots.len()
        invariant
            0 <= i <= roots@.len(),
            depth == nodes@.len(),
            visit_list_outcome(nodes@, roots@.take(i as int), depth as nat) is Ok,
            out@ == visit_list_outcome(nodes@, roots@.take(i as int), depth as nat)->Ok_0,
        decreases roots@.len() - i,
    {
        let r = roots[i];
        assert(roots@.take(i + 1).drop_last() =~= roots@.take(i as int));
        assert(roots@.take(i + 1)[i as int] == r);
        match visit(nodes, r, depth, &mut out) {
            Ok(()) => {},
            Err(e) => {
                proof {
                    lemma_list_err_prefix(nodes@, roots@, (i + 1) as int, depth as nat);
                }
                return Err(e);
            },
        }
        i += 1;
    }
    assert(roots@.take(roots@.len() as int) =~= roots@);
    Ok(out)
}

/// A model is the converted mesh of its node, named after the node and with
/// bones when the node is skinned.
pub open spec fn model_built(
    m: Model,
    nodes: Seq<Node>,
    meshes: Seq<MeshDesc>,
    bufs: Seq<Seq<u8>>,
    materials: Materials,
) -> bool {
    let node = nodes[m.node as int];
    mesh_built(
        m.mesh,
        meshes[node.mesh->Some_0 as int],
        node.name->Some_0@,
        node.skin is Some,
        bufs,
        materials,
    )
}

/// Converts the meshes instantiated by the nodes of a scene: for each node
/// in depth-first pre-order from the scene's roots that has a mesh, one
/// model, named after the node and with bones when the node is skinned.
pub fn get_models(
    roots: &Vec<usize>,
    nodes: &Vec<Node>,
    meshes: &Vec<MeshDesc>,
    bufs: &Buffers,
    materials: &Materials,
) -> (r: Result<Vec<Model>, ConvertError>)
    ensures
        r is Ok <==> (visit_list_outcome(nodes@, roots@, nodes@.len()) is Ok && forall|k: int|
            0 <= k < mesh_nodes(nodes@, visit_list_outcome(nodes@, roots@, nodes@.len())->Ok_0).len()
                ==> model_ok(
                nodes@,
                meshes@,
                bufs@,
                *materials,
                #[trigger] mesh_nodes(
                    nodes@,
                    visit_list_outcome(nodes@, roots@, nodes@.len())->Ok_0,
                )[k],
            )),
        r matches Err(e) ==> visit_list_outcome(nodes@, roots@, nodes@.len()) == Err::<
            Seq<usize>,
            ConvertError,
        >(e) || (visit_list_outcome(nodes@, roots@, nodes@.len()) is Ok && exists|k: int|
            0 <= k < mesh_nodes(nodes@, visit_list_outcome(nodes@, roots@, nodes@.len())->Ok_0).len()
                && model_fails_with(
                nodes@,
                meshes@,
                bufs@,
                *materials,
                #[trigger] mesh_nodes(
                    nodes@,
                    visit_list_outcome(nodes@, roots@, nodes@.len())->Ok_0,
                )[k],
                e,
            ) && forall|j: int|
                0 <= j < k ==> model_ok(
                    nodes@,
                    meshes@,
                    bufs@,
                    *materials,
                    #[trigger] mesh_nodes(
                        nodes@,
                        visit_list_outcome(nodes@, roots@, nodes@.len())->Ok_0,
                    )[j],
                )),
        r is Ok ==> r->Ok_0@.map_values(|m: Model| m.node) == mesh_nodes(
            nodes@,
            visit_list_outcome(nodes@, roots@, nodes@.len())->Ok_0,
        ),
        r is Ok ==> forall|k: int|
            0 <= k < r->Ok_0@.len() ==> model_built(
                #[trigger] r->Ok_0@[k],
                nodes@,
                meshes@,
                bufs@,
                *materials,
            ),
{
    let order = match scene_order(roots, nodes) {
        Ok(o) => o,
        Err(e) => {
            return Err(e);
        },
    };
    let ghost full = order@;
    proof {
        lemma_list_in_range(nodes@, roots@, nodes@.len());
    }
    let mut models: Vec<Model> = Vec::new();
    let mut i: usize = 0;
    while i < order.len()
        invariant
            0 <= i <= order@.len(),
            full == order@,
            visit_list_outcome(nodes@, roots@, nodes@.len()) == Ok::<Seq<usize>, ConvertError>(full),
            forall|k: int| 0 <= k < full.len() ==> (#[trigger] full[k]) < nodes@.len(),
            models@.map_values(|m: Model| m.node) == mesh_nodes(nodes@, full.take(i as int)),
            forall|k: int|
                0 <= k < mesh_nodes(nodes@, full.take(i as int)).len() ==> model_ok(
                    nodes@,
                    meshes@,
                    bufs@,
                    *materials,
                    #[trigger] mesh_nodes(nodes@, full.take(i as int))[k],
                ),
            forall|k: int|
                0 <= k < models@.len() ==> model_built(
                    #[trigger] models@[k],
                    nodes@,
                    meshes@,
                    bufs@,
                    *materials,
                ),
        decreases order@.len() - i,
    {
        let n = order[i];
        assert(full.take(i + 1).drop_last() =~= full.take(i as int));
        let node = &nodes[n];
        match node.mesh {
            Some(m) => {
                let name = match &node.name {
                    Some(s) => s,
                    None => {
                        proof {
                            assert(full[i as int] == n);
                            assert(!model_ok(nodes@, meshes@, bufs@, *materials, full[i as int]));
                            lemma_model_fails(nodes@, meshes@, bufs@, *materials, full, i as int);
                            lemma_first_model_fails(nodes@, meshes@, bufs@, *materials, full, i as int, ConvertError::NoName);
                            assert(visit_list_outcome(nodes@, roots@, nodes@.len())->Ok_0 == full);
                        }
                        return Err(ConvertError::NoName);
                    },
                };
                if m >= meshes.len() {
                    proof {
                        assert(full[i as int] == n);
                        lemma_model_fails(nodes@, meshes@, bufs@, *materials, full, i as int);
                        lemma_first_model_fails(nodes@, meshes@, bufs@, *materials, full, i as int, ConvertError::Other);
                        assert(visit_list_outcome(nodes@, roots@, nodes@.len())->Ok_0 == full);
                    }
                    return Err(ConvertError::Other);
                }
                let has_bones = node.skin.is_some();
                let mesh = match get_mesh(&meshes[m], name.as_str(), has_bones, bufs, materials) {
                    Ok(mesh) => mesh,
                    Err(e) => {
                        proof {
                            assert(full[i as int] == n);
                            assert(!mesh_ok(meshes@[m as int], has_bones, bufs@, *materials));
                            assert(!model_ok(nodes@, meshes@, bufs@, *materials, full[i as int]));
                            lemma_model_fails(nodes@, meshes@, bufs@, *materials, full, i as int);
                            lemma_first_model_fails(nodes@, meshes@, bufs@, *materials, full, i as int, e);
                            assert(visit_list_outcome(nodes@, roots@, nodes@.len())->Ok_0 == full);
                        }
                        return Err(e);
                    },
                };
                models.push(Model { mesh, node: n });
            },
            None => {},
        }
        i += 1;
    }
    assert(full.take(full.len() as int) =~= full);
    Ok(models)
}

} // verus!
