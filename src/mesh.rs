//! Meshes: named lists of converted primitives.
use vstd::prelude::*;

use crate::accessor::Buffers;
use crate::error::ConvertError;
use crate::material::Materials;
use crate::primitive::{get as get_primitives, primitive_built, primitive_error, Primitive, PrimitiveDesc};

verus! {

/// A mesh as the scene description gives it.
pub struct MeshDesc {
    pub primitives: Vec<PrimitiveDesc>,
}

/// A mesh of the engine model.
pub struct Mesh {
    pub name: String,
    pub primitives: Vec<Primitive>,
}

/// Every primitive of the mesh can be converted.
pub open spec fn mesh_ok(mesh: MeshDesc, has_joints: bool, bufs: Seq<Seq<u8>>, materials: Materials) -> bool {
    forall|i: int|
        0 <= i < mesh.primitives@.len() ==> primitive_error(
            #[trigger] mesh.primitives@[i],
            has_joints,
            bufs,
            materials,
        ) is None
}

/// A converted mesh carries the given name and one converted primitive per
/// primitive of its description.
pub open spec fn mesh_built(
    m: Mesh,
    mesh: MeshDesc,
    name: Seq<char>,
    has_joints: bool,
    bufs: Seq<Seq<u8>>,
    materials: Materials,
) -> bool {
    &&& m.name@ == name
    &&& m.primitives@.len() == mesh.primitives@.len()
    &&& forall|i: int|
        0 <= i < mesh.primitives@.len() ==> primitive_built(
            #[trigger] m.primitives@[i],
            mesh.primitives@[i],
            has_joints,
            bufs,
            materials,
        )
}

/// Primitive `i` is the first that cannot be converted, and fails with `e`.
pub open spec fn mesh_fails_with(
    mesh: MeshDesc,
    has_joints: bool,
    bufs: Seq<Seq<u8>>,
    materials: Materials,
    e: ConvertError,
) -> bool {
    exists|i: int|
        0 <= i < mesh.primitives@.len() && primitive_error(
            #[trigger] mesh.primitives@[i],
            has_joints,
            bufs,
            materials,
        ) == Some(e) && forall|k: int|
            0 <= k < i ==> primitive_error(
                #[trigger] mesh.primitives@[k],
                has_joints,
                bufs,
                materials,
            ) is None
}

/// Converts a mesh under the name of the node that instantiates it.
pub fn get(mesh: &MeshDesc, name: &str, has_joints: bool, bufs: &Buffers, materials: &Materials) -> (r:
    Result<Mesh, ConvertError>)
    ensures
        r is Ok <==> mesh_ok(*mesh, has_joints, bufs@, *materials),
        r is Ok ==> mesh_built(r->Ok_0, *mesh, name@, has_joints, bufs@, *materials),
        r matches Err(e) ==> mesh_fails_with(*mesh, has_joints, bufs@, *materials, e),
{
    match get_primitives(&mesh.primitives, has_joints, bufs, materials) {
        Ok(primitives) => Ok(Mesh { name: name.to_owned(), primitives }),
        Err(e) => Err(e),
    }
}

} // verus!
