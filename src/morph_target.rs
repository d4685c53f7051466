//! Morph targets: per-vertex displacements, given in full or as sparse
//! (index, value) pairs.
use vstd::prelude::*;

use crate::accessor::{
    arrays_match, decode_outcome, dense_outcome, index_component, read_dense, read_vec3_f32,
    typed_outcome, Accessor, Buffers, ComponentType, Dimensions, Sparse,
};
use crate::error::ConvertError;

verus! {

/// A morph target as the scene description gives it.
pub struct MorphTargetDesc {
    pub positions: Option<Accessor>,
    pub normals: Option<Accessor>,
    pub tangents: Option<Accessor>,
}

/// One displaced vertex of a sparse morph target.
#[derive(Debug, Clone, Copy)]
pub struct SparseDatum {
    pub index: u32,
    /// Float bit patterns of the displacement.
    pub value: [u32; 3],
}

/// The displacements of one attribute.
pub enum Data {
    Full(Vec<[u32; 3]>),
    Sparse(Vec<SparseDatum>),
}

/// A morph target of the engine model.
pub struct MorphTarget {
    pub positions: Option<Data>,
    pub normals: Option<Data>,
    pub tangents: Option<Data>,
}

/// What reading the indices of a sparse part gives.
pub open spec fn sparse_indices_outcome(sp: Sparse, bufs: Seq<Seq<u8>>) -> Result<
    Seq<Seq<u32>>,
    ConvertError,
> {
    dense_outcome(bufs, sp.indices, index_component(sp.index_type), Dimensions::Scalar, sp.count as nat)
}

/// What reading the values of a sparse part of `Vec3` floats gives.
pub open spec fn sparse_values_outcome(sp: Sparse, bufs: Seq<Seq<u8>>) -> Result<
    Seq<Seq<u32>>,
    ConvertError,
> {
    dense_outcome(bufs, sp.values, ComponentType::F32, Dimensions::Vec3, sp.count as nat)
}

/// Why the displacements of an accessor cannot be read, if they cannot.
pub open spec fn morph_error(a: Accessor, bufs: Seq<Seq<u8>>) -> Option<ConvertError> {
    if a.dimensions != Dimensions::Vec3 {
        Some(ConvertError::UnsupportedDimensions)
    } else if a.component_type != ComponentType::F32 {
        Some(ConvertError::UnsupportedDataType)
    } else {
        match a.sparse {
            Some(sp) => match sparse_indices_outcome(sp, bufs) {
                Err(e) => Some(e),
                Ok(_) => match sparse_values_outcome(sp, bufs) {
                    Err(e) => Some(e),
                    Ok(_) => None,
                },
            },
            None => match decode_outcome(a, bufs) {
                Err(e) => Some(e),
                Ok(_) => None,
            },
        }
    }
}

/// Read displacements: all of them, or the sparse pairs as stored.
pub open spec fn data_built(d: Data, a: Accessor, bufs: Seq<Seq<u8>>) -> bool {
    match d {
        Data::Full(v) => a.sparse is None && arrays_match(v@, decode_outcome(a, bufs)->Ok_0),
        Data::Sparse(v) => {
            let sp = a.sparse->Some_0;
            let idx = sparse_indices_outcome(sp, bufs)->Ok_0;
            let vals = sparse_values_outcome(sp, bufs)->Ok_0;
            &&& a.sparse is Some
            &&& v@.len() == sp.count
            &&& forall|i: int|
                0 <= i < sp.count ==> (#[trigger] v@[i]).index == idx[i][0] && v@[i].value@ == vals[i]
        },
    }
}

/// Reads the indices of a sparse part.
pub fn get_sparse_indices(sp: &Sparse, bufs: &Buffers) -> (r: Result<Vec<u32>, ConvertError>)
    ensures
        match r {
            Ok(v) => sparse_indices_outcome(*sp, bufs@) is Ok && v@.len() == sp.count && forall|i: int|
                0 <= i < sp.count ==> #[trigger] v@[i] == sparse_indices_outcome(*sp, bufs@)->Ok_0[i][0],
            Err(e) => sparse_indices_outcome(*sp, bufs@) == Err::<Seq<Seq<u32>>, ConvertError>(e),
        },
{
    let it = match sp.index_type {
        crate::accessor::IndexType::U8 => ComponentType::U8,
        crate::accessor::IndexType::U16 => ComponentType::U16,
        crate::accessor::IndexType::U32 => ComponentType::U32,
    };
    let rows = match read_dense(bufs, sp.indices, it, Dimensions::Scalar, sp.count) {
        Ok(rows) => rows,
        Err(e) => {
            return Err(e);
        },
    };
    let ghost s = rows.deep_view();
    proof {
        assert forall|i: int| 0 <= i < rows@.len() implies (#[trigger] rows@[i])@ == s[i] by {
            assert(s[i] =~= rows@[i]@);
        }
    }
    let mut out: Vec<u32> = Vec::new();
    let mut i: usize = 0;
    while i < rows.len()
        invariant
            0 <= i <= rows@.len(),
            s.len() == sp.count,
            rows@.len() == s.len(),
            forall|k: int| 0 <= k < s.len() ==> (#[trigger] rows@[k])@ == s[k],
            forall|k: int| 0 <= k < s.len() ==> (#[trigger] s[k]).len() == 1,
            out@.len() == i,
            forall|k: int| 0 <= k < i ==> #[trigger] out@[k] == s[k][0],
        decreases rows@.len() - i,
    {
        assert(rows@[i as int]@ == s[i as int]);
        out.push(rows[i][0]);
        i += 1;
    }
    Ok(out)
}

/// Reads the values of a sparse part of `Vec3` floats.
pub fn get_sparse_values(sp: &Sparse, bufs: &Buffers) -> (r: Result<Vec<[u32; 3]>, ConvertError>)
    ensures
        match r {
            Ok(v) => sparse_values_outcome(*sp, bufs@) is Ok && arrays_match(
                v@,
                sparse_values_outcome(*sp, bufs@)->Ok_0,
            ),
            Err(e) => sparse_values_outcome(*sp, bufs@) == Err::<Seq<Seq<u32>>, ConvertError>(e),
        },
{
    let rows = match read_dense(bufs, sp.values, ComponentType::F32, Dimensions::Vec3, sp.count) {
        Ok(rows) => rows,
        Err(e) => {
            return Err(e);
        },
    };
    let ghost s = rows.deep_view();
    proof {
        assert forall|i: int| 0 <= i < rows@.len() implies (#[trigger] rows@[i])@ == s[i] by {
            assert(s[i] =~= rows@[i]@);
        }
    }
    let mut out: Vec<[u32; 3]> = Vec::new();
    let mut i: usize = 0;
    while i < rows.len()
        invariant
            0 <= i <= rows@.len(),
            rows@.len() == s.len(),
            forall|k: int| 0 <= k < s.len() ==> (#[trigger] rows@[k])@ == s[k],
            forall|k: int| 0 <= k < s.len() ==> (#[trigger] s[k]).len() == 3,
            out@.len() == i,
            forall|k: int| 0 <= k < i ==> (#[trigger] out@[k])@ == s[k],
        decreases rows@.len() - i,
    {
        assert(rows@[i as int]@ == s[i as int]);
        let e = &rows[i];
        out.push([e[0], e[1], e[2]]);
        assert(out@[i as int]@ =~= s[i as int]);
        i += 1;
    }
    Ok(out)
}

/// Reads the displacements of one attribute, which must be `Vec3` floats.
pub fn get_data(acc: &Option<Accessor>, bufs: &Buffers) -> (r: Result<Option<Data>, ConvertError>)
    ensures
        match acc {
            None => r matches Ok(None),
            Some(a) => match r {
                Ok(Some(d)) => morph_error(*a, bufs@) is None && data_built(d, *a, bufs@),
                Ok(None) => false,
                Err(e) => morph_error(*a, bufs@) == Some(e),
            },
        },
{
    let a = match acc {
        Some(a) => a,
        None => {
            return Ok(None);
        },
    };
    if a.dimensions != Dimensions::Vec3 {
        return Err(ConvertError::UnsupportedDimensions);
    }
    if a.component_type != ComponentType::F32 {
        return Err(ConvertError::UnsupportedDataType);
    }
    match &a.sparse {
        Some(sp) => {
            let indices = match get_sparse_indices(sp, bufs) {
                Ok(v) => v,
                Err(e) => {
                    return Err(e);
                },
            };
            let values = match get_sparse_values(sp, bufs) {
                Ok(v) => v,
                Err(e) => {
                    return Err(e);
                },
            };
            let mut out: Vec<SparseDatum> = Vec::new();
            let mut i: usize = 0;
            while i < indices.len()
                invariant
                    0 <= i <= indices@.len(),
                    indices@.len() == sp.count,
                    values@.len() == sp.count,
                    out@.len() == i,
                    forall|k: int|
                        0 <= k < i ==> (#[trigger] out@[k]).index == indices@[k] && out@[k].value
                            == values@[k],
                decreases indices@.len() - i,
            {
                out.push(SparseDatum { index: indices[i], value: values[i] });
                i += 1;
            }
            Ok(Some(Data::Sparse(out)))
        },
        None => match read_vec3_f32(a, bufs) {
            Ok(v) => Ok(Some(Data::Full(v))),
            Err(e) => Err(e),
        },
    }
}

/// Reads every morph target of a primitive, in order; the first failure aborts.
pub fn get(targets: &Vec<MorphTargetDesc>, bufs: &Buffers) -> (r: Result<
    Vec<MorphTarget>,
    ConvertError,
>)
    ensures
        r is Ok ==> r->Ok_0@.len() == targets@.len() && forall|i: int|
            0 <= i < targets@.len() ==> morph_target_built(
                #[trigger] r->Ok_0@[i],
                targets@[i],
                bufs@,
            ),
        r is Ok <==> forall|i: int|
            0 <= i < targets@.len() ==> morph_target_ok(#[trigger] targets@[i], bufs@),
{
    let mut out: Vec<MorphTarget> = Vec::new();
    let mut i: usize = 0;
    while i < targets.len()
        invariant
            0 <= i <= targets@.len(),
            out@.len() == i,
            forall|k: int| 0 <= k < i ==> morph_target_ok(#[trigger] targets@[k], bufs@),
            forall|k: int| 0 <= k < i ==> morph_target_built(#[trigger] out@[k], targets@[k], bufs@),
        decreases targets@.len() - i,
    {
        let t = &targets[i];
        let positions = match get_data(&t.positions, bufs) {
            Ok(d) => d,
            Err(e) => {
                return Err(e);
            },
        };
        let normals = match get_data(&t.normals, bufs) {
            Ok(d) => d,
            Err(e) => {
                return Err(e);
            },
        };
        let tangents = match get_data(&t.tangents, bufs) {
            Ok(d) => d,
            Err(e) => {
                return Err(e);
            },
        };
        out.push(MorphTarget { positions, normals, tangents });
        i += 1;
    }
    Ok(out)
}

/// Read displacements are present exactly for a declared accessor.
pub open spec fn slot_built(d: Option<Data>, a: Option<Accessor>, bufs: Seq<Seq<u8>>) -> bool {
    match (a, d) {
        (None, None) => true,
        (Some(acc), Some(x)) => data_built(x, acc, bufs),
        _ => false,
    }
}

/// A read morph target holds the displacements of each declared attribute.
pub open spec fn morph_target_built(m: MorphTarget, t: MorphTargetDesc, bufs: Seq<Seq<u8>>) -> bool {
    &&& slot_built(m.positions, t.positions, bufs)
    &&& slot_built(m.normals, t.normals, bufs)
    &&& slot_built(m.tangents, t.tangents, bufs)
}

/// Every attribute that the morph target declares can be read.
pub open spec fn morph_target_ok(t: MorphTargetDesc, bufs: Seq<Seq<u8>>) -> bool {
    &&& (t.positions matches Some(a) ==> morph_error(a, bufs) is None)
    &&& (t.normals matches Some(a) ==> morph_error(a, bufs) is None)
    &&& (t.tangents matches Some(a) ==> morph_error(a, bufs) is None)
}

} // verus!
