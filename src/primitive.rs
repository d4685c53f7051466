//! Vertex assembly: per-vertex records built from the attribute streams of
//! a primitive, in one of eight shapes chosen by which optional streams exist.
use vstd::prelude::*;

use crate::accessor::{
    arrays_match, f32_outcome, joints_outcome, unorm_outcome, normalized_row, read_indices_u32,
    read_vec2_norm, read_vec3_f32, read_vec4_f32, read_vec4_unorm, read_vec4_u16, typed_outcome,
    u16_arrays_match, unsigned_integer, value_arrays_match, firsts, Accessor, Buffers, Dimensions,
    Value,
};
use crate::error::ConvertError;
use crate::material::{material_name, Materials};
use crate::morph_target::MorphTargetDesc;

verus! {

/// A primitive as the scene description gives it: an accessor per attribute semantic.
pub struct PrimitiveDesc {
    pub material: Option<usize>,
    pub positions: Option<Accessor>,
    pub normals: Option<Accessor>,
    pub tex_coords_0: Option<Accessor>,
    pub tex_coords_1: Option<Accessor>,
    pub tangents: Option<Accessor>,
    pub joints_0: Option<Accessor>,
    pub weights_0: Option<Accessor>,
    pub indices: Option<Accessor>,
    pub targets: Vec<MorphTargetDesc>,
}

/// A vertex without a second texture coordinate, without a tangent and without joint weights.
#[derive(Debug, Clone, Copy)]
pub struct VertexNoTex1NoTangentNoBones {
    pub position: [u32; 3],
    pub normal: [u32; 3],
    pub texcoord0: [Value; 2],
}

/// A vertex without a second texture coordinate, without a tangent and with joint weights.
#[derive(Debug, Clone, Copy)]
pub struct VertexNoTex1NoTangentBones {
    pub position: [u32; 3],
    pub normal: [u32; 3],
    pub texcoord0: [Value; 2],
    pub joints: [u16; 4],
    pub weights: [Value; 4],
}

/// A vertex without a second texture coordinate, with a tangent and without joint weights.
#[derive(Debug, Clone, Copy)]
pub struct VertexNoTex1TangentNoBones {
    pub position: [u32; 3],
    pub normal: [u32; 3],
    pub texcoord0: [Value; 2],
    pub tangent: [u32; 4],
}

/// A vertex without a second texture coordinate, with a tangent and with joint weights.
#[derive(Debug, Clone, Copy)]
pub struct VertexNoTex1TangentBones {
    pub position: [u32; 3],
    pub normal: [u32; 3],
    pub texcoord0: [Value; 2],
    pub tangent: [u32; 4],
    pub joints: [u16; 4],
    pub weights: [Value; 4],
}

/// A vertex with a second texture coordinate, without a tangent and without joint weights.
#[derive(Debug, Clone, Copy)]
pub struct VertexTex1NoTangentNoBones {
    pub position: [u32; 3],
    pub normal: [u32; 3],
    pub texcoord0: [Value; 2],
    pub texcoord1: [Value; 2],
}

/// A vertex with a second texture coordinate, without a tangent and with joint weights.
#[derive(Debug, Clone, Copy)]
pub struct VertexTex1NoTangentBones {
    pub position: [u32; 3],
    pub normal: [u32; 3],
    pub texcoord0: [Value; 2],
    pub texcoord1: [Value; 2],
    pub joints: [u16; 4],
    pub weights: [Value; 4],
}

/// A vertex with a second texture coordinate, with a tangent and without joint weights.
#[derive(Debug, Clone, Copy)]
pub struct VertexTex1TangentNoBones {
    pub position: [u32; 3],
    pub normal: [u32; 3],
    pub texcoord0: [Value; 2],
    pub texcoord1: [Value; 2],
    pub tangent: [u32; 4],
}

/// A vertex with a second texture coordinate, with a tangent and with joint weights.
#[derive(Debug, Clone, Copy)]
pub struct VertexTex1TangentBones {
    pub position: [u32; 3],
    pub normal: [u32; 3],
    pub texcoord0: [Value; 2],
    pub texcoord1: [Value; 2],
    pub tangent: [u32; 4],
    pub joints: [u16; 4],
    pub weights: [Value; 4],
}

/// The vertices of a primitive, in the shape its attribute streams call for.
pub enum Attributes {
    NoTex1NoTangentNoBones(Vec<VertexNoTex1NoTangentNoBones>),
    NoTex1NoTangentBones(Vec<VertexNoTex1NoTangentBones>),
    NoTex1TangentNoBones(Vec<VertexNoTex1TangentNoBones>),
    NoTex1TangentBones(Vec<VertexNoTex1TangentBones>),
    Tex1NoTangentNoBones(Vec<VertexTex1NoTangentNoBones>),
    Tex1NoTangentBones(Vec<VertexTex1NoTangentBones>),
    Tex1TangentNoBones(Vec<VertexTex1TangentNoBones>),
    Tex1TangentBones(Vec<VertexTex1TangentBones>),
}

/// A primitive of the engine model.
pub struct Primitive {
    pub material: String,
    pub attributes: Attributes,
    pub indices: Vec<u32>,
}

pub open spec fn has_tex1(p: PrimitiveDesc) -> bool {
    p.tex_coords_1 is Some
}

pub open spec fn has_tangents(p: PrimitiveDesc) -> bool {
    p.tangents is Some
}

/// Bones are present when the caller's node is skinned and the primitive
/// declares joint indices.
pub open spec fn has_bones(p: PrimitiveDesc, has_joints: bool) -> bool {
    has_joints && p.joints_0 is Some
}

pub open spec fn pos_stream(p: PrimitiveDesc, bufs: Seq<Seq<u8>>) -> Result<Seq<Seq<u32>>, ConvertError> {
    f32_outcome(p.positions->Some_0, bufs, Dimensions::Vec3)
}

pub open spec fn nor_stream(p: PrimitiveDesc, bufs: Seq<Seq<u8>>) -> Result<Seq<Seq<u32>>, ConvertError> {
    f32_outcome(p.normals->Some_0, bufs, Dimensions::Vec3)
}

pub open spec fn tx0_stream(p: PrimitiveDesc, bufs: Seq<Seq<u8>>) -> Result<Seq<Seq<u32>>, ConvertError> {
    unorm_outcome(p.tex_coords_0->Some_0, bufs, Dimensions::Vec2)
}

pub open spec fn tx1_stream(p: PrimitiveDesc, bufs: Seq<Seq<u8>>) -> Result<Seq<Seq<u32>>, ConvertError> {
    unorm_outcome(p.tex_coords_1->Some_0, bufs, Dimensions::Vec2)
}

pub open spec fn tan_stream(p: PrimitiveDesc, bufs: Seq<Seq<u8>>) -> Result<Seq<Seq<u32>>, ConvertError> {
    f32_outcome(p.tangents->Some_0, bufs, Dimensions::Vec4)
}

pub open spec fn ids_stream(p: PrimitiveDesc, bufs: Seq<Seq<u8>>) -> Result<Seq<Seq<u32>>, ConvertError> {
    joints_outcome(p.joints_0->Some_0, bufs)
}

pub open spec fn wts_stream(p: PrimitiveDesc, bufs: Seq<Seq<u8>>) -> Result<Seq<Seq<u32>>, ConvertError> {
    unorm_outcome(p.weights_0->Some_0, bufs, Dimensions::Vec4)
}

/// Every stream of the chosen shape has as many elements as the positions.
pub open spec fn streams_agree(p: PrimitiveDesc, has_joints: bool, bufs: Seq<Seq<u8>>) -> bool {
    let n = pos_stream(p, bufs)->Ok_0.len();
    &&& nor_stream(p, bufs)->Ok_0.len() == n
    &&& tx0_stream(p, bufs)->Ok_0.len() == n
    &&& has_tex1(p) ==> tx1_stream(p, bufs)->Ok_0.len() == n
    &&& has_tangents(p) ==> tan_stream(p, bufs)->Ok_0.len() == n
    &&& has_bones(p, has_joints) ==> ids_stream(p, bufs)->Ok_0.len() == n
    &&& has_bones(p, has_joints) ==> wts_stream(p, bufs)->Ok_0.len() == n
}

/// Why the vertices of a primitive cannot be assembled, if they cannot;
/// checked in this order.
pub open spec fn attributes_error(p: PrimitiveDesc, has_joints: bool, bufs: Seq<Seq<u8>>) -> Option<
    ConvertError,
> {
    let bones = has_bones(p, has_joints);
    if p.positions is None || p.normals is None || p.tex_coords_0 is None {
        Some(ConvertError::MissingAttributes)
    } else if bones && p.weights_0 is None {
        Some(ConvertError::MissingAttributes)
    } else if pos_stream(p, bufs) is Err {
        Some(pos_stream(p, bufs)->Err_0)
    } else if nor_stream(p, bufs) is Err {
        Some(nor_stream(p, bufs)->Err_0)
    } else if tx0_stream(p, bufs) is Err {
        Some(tx0_stream(p, bufs)->Err_0)
    } else if has_tex1(p) && tx1_stream(p, bufs) is Err {
        Some(tx1_stream(p, bufs)->Err_0)
    } else if has_tangents(p) && tan_stream(p, bufs) is Err {
        Some(tan_stream(p, bufs)->Err_0)
    } else if bones && ids_stream(p, bufs) is Err {
        Some(ids_stream(p, bufs)->Err_0)
    } else if bones && wts_stream(p, bufs) is Err {
        Some(wts_stream(p, bufs)->Err_0)
    } else if !streams_agree(p, has_joints, bufs) {
        Some(ConvertError::Other)
    } else {
        None
    }
}

/// The always-present fields of vertex `i`.
pub open spec fn base_at(
    p: PrimitiveDesc,
    bufs: Seq<Seq<u8>>,
    i: int,
    position: [u32; 3],
    normal: [u32; 3],
    texcoord0: [Value; 2],
) -> bool {
    &&& position@ == pos_stream(p, bufs)->Ok_0[i]
    &&& normal@ == nor_stream(p, bufs)->Ok_0[i]
    &&& texcoord0@ == normalized_row(
        p.tex_coords_0->Some_0.component_type,
        tx0_stream(p, bufs)->Ok_0[i],
    )
}

pub open spec fn tex1_at(p: PrimitiveDesc, bufs: Seq<Seq<u8>>, i: int, texcoord1: [Value; 2]) -> bool {
    texcoord1@ == normalized_row(p.tex_coords_1->Some_0.component_type, tx1_stream(p, bufs)->Ok_0[i])
}

pub open spec fn tangent_at(p: PrimitiveDesc, bufs: Seq<Seq<u8>>, i: int, tangent: [u32; 4]) -> bool {
    tangent@ == tan_stream(p, bufs)->Ok_0[i]
}

pub open spec fn bones_at(
    p: PrimitiveDesc,
    bufs: Seq<Seq<u8>>,
    i: int,
    joints: [u16; 4],
    weights: [Value; 4],
) -> bool {
    &&& joints@ == ids_stream(p, bufs)->Ok_0[i].map_values(|c: u32| c as u16)
    &&& weights@ == normalized_row(p.weights_0->Some_0.component_type, wts_stream(p, bufs)->Ok_0[i])
}

/// The assembled vertices have the shape the present streams call for, and
/// vertex `i` holds element `i` of every stream of that shape.
pub open spec fn attributes_built(a: Attributes, p: PrimitiveDesc, has_joints: bool, bufs: Seq<Seq<u8>>) -> bool {
    let n = pos_stream(p, bufs)->Ok_0.len();
    match a {
        Attributes::NoTex1NoTangentNoBones(v) => {
            &&& !has_tex1(p)
            &&& !has_tangents(p)
            &&& !has_bones(p, has_joints)
            &&& v@.len() == n
            &&& forall|i: int| 0 <= i < n ==> base_at(p, bufs, i, (#[trigger] v@[i]).position, v@[i].normal, v@[i].texcoord0)
        },
        Attributes::NoTex1NoTangentBones(v) => {
            &&& !has_tex1(p)
            &&& !has_tangents(p)
            &&& has_bones(p, has_joints)
            &&& v@.len() == n
            &&& forall|i: int| 0 <= i < n ==> base_at(p, bufs, i, (#[trigger] v@[i]).position, v@[i].normal, v@[i].texcoord0) && bones_at(p, bufs, i, v@[i].joints, v@[i].weights)
        },
        Attributes::NoTex1TangentNoBones(v) => {
            &&& !has_tex1(p)
            &&& has_tangents(p)
            &&& !has_bones(p, has_joints)
            &&& v@.len() == n
            &&& forall|i: int| 0 <= i < n ==> base_at(p, bufs, i, (#[trigger] v@[i]).position, v@[i].normal, v@[i].texcoord0) && tangent_at(p, bufs, i, v@[i].tangent)
        },
        Attributes::NoTex1TangentBones(v) => {
            &&& !has_tex1(p)
            &&& has_tangents(p)
            &&& has_bones(p, has_joints)
            &&& v@.len() == n
            &&& forall|i: int| 0 <= i < n ==> base_at(p, bufs, i, (#[trigger] v@[i]).position, v@[i].normal, v@[i].texcoord0) && tangent_at(p, bufs, i, v@[i].tangent) && bones_at(p, bufs, i, v@[i].joints, v@[i].weights)
        },
        Attributes::Tex1NoTangentNoBones(v) => {
            &&& has_tex1(p)
            &&& !has_tangents(p)
            &&& !has_bones(p, has_joints)
            &&& v@.len() == n
            &&& forall|i: int| 0 <= i < n ==> base_at(p, bufs, i, (#[trigger] v@[i]).position, v@[i].normal, v@[i].texcoord0) && tex1_at(p, bufs, i, v@[i].texcoord1)
        },
        Attributes::Tex1NoTangentBones(v) => {
            &&& has_tex1(p)
            &&& !has_tangents(p)
            &&& has_bones(p, has_joints)
            &&& v@.len() == n
            &&& forall|i: int| 0 <= i < n ==> base_at(p, bufs, i, (#[trigger] v@[i]).position, v@[i].normal, v@[i].texcoord0) && tex1_at(p, bufs, i, v@[i].texcoord1) && bones_at(p, bufs, i, v@[i].joints, v@[i].weights)
        },
        Attributes::Tex1TangentNoBones(v) => {
            &&& has_tex1(p)
            &&& has_tangents(p)
            &&& !has_bones(p, has_joints)
            &&& v@.len() == n
            &&& forall|i: int| 0 <= i < n ==> base_at(p, bufs, i, (#[trigger] v@[i]).position, v@[i].normal, v@[i].texcoord0) && tex1_at(p, bufs, i, v@[i].texcoord1) && tangent_at(p, bufs, i, v@[i].tangent)
        },
        Attributes::Tex1TangentBones(v) => {
            &&& has_tex1(p)
            &&& has_tangents(p)
            &&& has_bones(p, has_joints)
            &&& v@.len() == n
            &&& forall|i: int| 0 <= i < n ==> base_at(p, bufs, i, (#[trigger] v@[i]).position, v@[i].normal, v@[i].texcoord0) && tex1_at(p, bufs, i, v@[i].texcoord1) && tangent_at(p, bufs, i, v@[i].tangent) && bones_at(p, bufs, i, v@[i].joints, v@[i].weights)
        },
    }
}

/// The decoded streams agree with the specification and with one another.
pub open spec fn streams_ready(
    p: PrimitiveDesc,
    has_joints: bool,
    bufs: Seq<Seq<u8>>,
    pos: Seq<[u32; 3]>,
    nor: Seq<[u32; 3]>,
    tx0: Seq<[Value; 2]>,
    tx1: Seq<[Value; 2]>,
    tan: Seq<[u32; 4]>,
    ids: Seq<[u16; 4]>,
    wts: Seq<[Value; 4]>,
) -> bool {
    &&& attributes_error(p, has_joints, bufs) is None
    &&& arrays_match(pos, pos_stream(p, bufs)->Ok_0)
    &&& arrays_match(nor, nor_stream(p, bufs)->Ok_0)
    &&& value_arrays_match(tx0, tx0_stream(p, bufs)->Ok_0, p.tex_coords_0->Some_0.component_type)
    &&& has_tex1(p) ==> value_arrays_match(
        tx1,
        tx1_stream(p, bufs)->Ok_0,
        p.tex_coords_1->Some_0.component_type,
    )
    &&& has_tangents(p) ==> arrays_match(tan, tan_stream(p, bufs)->Ok_0)
    &&& has_bones(p, has_joints) ==> u16_arrays_match(ids, ids_stream(p, bufs)->Ok_0)
    &&& has_bones(p, has_joints) ==> value_arrays_match(
        wts,
        wts_stream(p, bufs)->Ok_0,
        p.weights_0->Some_0.component_type,
    )
}

fn build_notex1notangentnobones(
    p: &PrimitiveDesc,
    has_joints: bool,
    bufs: &Buffers,
    pos: &Vec<[u32; 3]>,
    nor: &Vec<[u32; 3]>,
    tx0: &Vec<[Value; 2]>,
    tx1: &Vec<[Value; 2]>,
    tan: &Vec<[u32; 4]>,
    ids: &Vec<[u16; 4]>,
    wts: &Vec<[Value; 4]>,
) -> (r: Attributes)
    requires
        streams_ready(*p, has_joints, bufs@, pos@, nor@, tx0@, tx1@, tan@, ids@, wts@),
        !has_tex1(*p),
        !has_tangents(*p),
        !has_bones(*p, has_joints),
    ensures
        attributes_built(r, *p, has_joints, bufs@),
{
    let n = pos.len();
    let mut out: Vec<VertexNoTex1NoTangentNoBones> = Vec::new();
    let mut i: usize = 0;
    while i < n
        invariant
            0 <= i <= n,
            n == pos@.len(),
            streams_ready(*p, has_joints, bufs@, pos@, nor@, tx0@, tx1@, tan@, ids@, wts@),
            !has_tex1(*p),
            !has_tangents(*p),
            !has_bones(*p, has_joints),
            out@.len() == i,
            forall|k: int| 0 <= k < i ==> base_at(*p, bufs@, k, (#[trigger] out@[k]).position, out@[k].normal, out@[k].texcoord0),
        decreases n - i,
    {
        proof {
            assert(pos@[i as int]@ == pos_stream(*p, bufs@)->Ok_0[i as int]);
            assert(nor@[i as int]@ == nor_stream(*p, bufs@)->Ok_0[i as int]);
            assert(tx0@[i as int]@ == normalized_row(p.tex_coords_0->Some_0.component_type, tx0_stream(*p, bufs@)->Ok_0[i as int]));
        }
        out.push(VertexNoTex1NoTangentNoBones { position: pos[i], normal: nor[i], texcoord0: tx0[i] });
        i += 1;
    }
    Attributes::NoTex1NoTangentNoBones(out)
}

fn build_notex1notangentbones(
    p: &PrimitiveDesc,
    has_joints: bool,
    bufs: &Buffers,
    pos: &Vec<[u32; 3]>,
    nor: &Vec<[u32; 3]>,
    tx0: &Vec<[Value; 2]>,
    tx1: &Vec<[Value; 2]>,
    tan: &Vec<[u32; 4]>,
    ids: &Vec<[u16; 4]>,
    wts: &Vec<[Value; 4]>,
) -> (r: Attributes)
    requires
        streams_ready(*p, has_joints, bufs@, pos@, nor@, tx0@, tx1@, tan@, ids@, wts@),
        !has_tex1(*p),
        !has_tangents(*p),
        has_bones(*p, has_joints),
    ensures
        attributes_built(r, *p, has_joints, bufs@),
{
    let n = pos.len();
    let mut out: Vec<VertexNoTex1NoTangentBones> = Vec::new();
    let mut i: usize = 0;
    while i < n
        invariant
            0 <= i <= n,
            n == pos@.len(),
            streams_ready(*p, has_joints, bufs@, pos@, nor@, tx0@, tx1@, tan@, ids@, wts@),
            !has_tex1(*p),
            !has_tangents(*p),
            has_bones(*p, has_joints),
            out@.len() == i,
            forall|k: int| 0 <= k < i ==> base_at(*p, bufs@, k, (#[trigger] out@[k]).position, out@[k].normal, out@[k].texcoord0) && bones_at(*p, bufs@, k, out@[k].joints, out@[k].weights),
        decreases n - i,
    {
        proof {
            assert(pos@[i as int]@ == pos_stream(*p, bufs@)->Ok_0[i as int]);
            assert(nor@[i as int]@ == nor_stream(*p, bufs@)->Ok_0[i as int]);
            assert(tx0@[i as int]@ == normalized_row(p.tex_coords_0->Some_0.component_type, tx0_stream(*p, bufs@)->Ok_0[i as int]));
            assert(ids@[i as int]@ == ids_stream(*p, bufs@)->Ok_0[i as int].map_values(|c: u32| c as u16));
            assert(wts@[i as int]@ == normalized_row(p.weights_0->Some_0.component_type, wts_stream(*p, bufs@)->Ok_0[i as int]));
        }
        out.push(VertexNoTex1NoTangentBones { position: pos[i], normal: nor[i], texcoord0: tx0[i], joints: ids[i], weights: wts[i] });
        i += 1;
    }
    Attributes::NoTex1NoTangentBones(out)
}

fn build_notex1tangentnobones(
    p: &PrimitiveDesc,
    has_joints: bool,
    bufs: &Buffers,
    pos: &Vec<[u32; 3]>,
    nor: &Vec<[u32; 3]>,
    tx0: &Vec<[Value; 2]>,
    tx1: &Vec<[Value; 2]>,
    tan: &Vec<[u32; 4]>,
    ids: &Vec<[u16; 4]>,
    wts: &Vec<[Value; 4]>,
) -> (r: Attributes)
    requires
        streams_ready(*p, has_joints, bufs@, pos@, nor@, tx0@, tx1@, tan@, ids@, wts@),
        !has_tex1(*p),
        has_tangents(*p),
        !has_bones(*p, has_joints),
    ensures
        attributes_built(r, *p, has_joints, bufs@),
{
    let n = pos.len();
    let mut out: Vec<VertexNoTex1TangentNoBones> = Vec::new();
    let mut i: usize = 0;
    while i < n
        invariant
            0 <= i <= n,
            n == pos@.len(),
            streams_ready(*p, has_joints, bufs@, pos@, nor@, tx0@, tx1@, tan@, ids@, wts@),
            !has_tex1(*p),
            has_tangents(*p),
            !has_bones(*p, has_joints),
            out@.len() == i,
            forall|k: int| 0 <= k < i ==> base_at(*p, bufs@, k, (#[trigger] out@[k]).position, out@[k].normal, out@[k].texcoord0) && tangent_at(*p, bufs@, k, out@[k].tangent),
        decreases n - i,
    {
        proof {
            assert(pos@[i as int]@ == pos_stream(*p, bufs@)->Ok_0[i as int]);
            assert(nor@[i as int]@ == nor_stream(*p, bufs@)->Ok_0[i as int]);
            assert(tx0@[i as int]@ == normalized_row(p.tex_coords_0->Some_0.component_type, tx0_stream(*p, bufs@)->Ok_0[i as int]));
            assert(tan@[i as int]@ == tan_stream(*p, bufs@)->Ok_0[i as int]);
        }
        out.push(VertexNoTex1TangentNoBones { position: pos[i], normal: nor[i], texcoord0: tx0[i], tangent: tan[i] });
        i += 1;
    }
    Attributes::NoTex1TangentNoBones(out)
}

fn build_notex1tangentbones(
    p: &PrimitiveDesc,
    has_joints: bool,
    bufs: &Buffers,
    pos: &Vec<[u32; 3]>,
    nor: &Vec<[u32; 3]>,
    tx0: &Vec<[Value; 2]>,
    tx1: &Vec<[Value; 2]>,
    tan: &Vec<[u32; 4]>,
    ids: &Vec<[u16; 4]>,
    wts: &Vec<[Value; 4]>,
) -> (r: Attributes)
    requires
        streams_ready(*p, has_joints, bufs@, pos@, nor@, tx0@, tx1@, tan@, ids@, wts@),
        !has_tex1(*p),
        has_tangents(*p),
        has_bones(*p, has_joints),
    ensures
        attributes_built(r, *p, has_joints, bufs@),
{
    let n = pos.len();
    let mut out: Vec<VertexNoTex1TangentBones> = Vec::new();
    let mut i: usize = 0;
    while i < n
        invariant
            0 <= i <= n,
            n == pos@.len(),
            streams_ready(*p, has_joints, bufs@, pos@, nor@, tx0@, tx1@, tan@, ids@, wts@),
            !has_tex1(*p),
            has_tangents(*p),
            has_bones(*p, has_joints),
            out@.len() == i,
            forall|k: int| 0 <= k < i ==> base_at(*p, bufs@, k, (#[trigger] out@[k]).position, out@[k].normal, out@[k].texcoord0) && tangent_at(*p, bufs@, k, out@[k].tangent) && bones_at(*p, bufs@, k, out@[k].joints, out@[k].weights),
        decreases n - i,
    {
        proof {
            assert(pos@[i as int]@ == pos_stream(*p, bufs@)->Ok_0[i as int]);
            assert(nor@[i as int]@ == nor_stream(*p, bufs@)->Ok_0[i as int]);
            assert(tx0@[i as int]@ == normalized_row(p.tex_coords_0->Some_0.component_type, tx0_stream(*p, bufs@)->Ok_0[i as int]));
            assert(tan@[i as int]@ == tan_stream(*p, bufs@)->Ok_0[i as int]);
            assert(ids@[i as int]@ == ids_stream(*p, bufs@)->Ok_0[i as int].map_values(|c: u32| c as u16));
            assert(wts@[i as int]@ == normalized_row(p.weights_0->Some_0.component_type, wts_stream(*p, bufs@)->Ok_0[i as int]));
        }
        out.push(VertexNoTex1TangentBones { position: pos[i], normal: nor[i], texcoord0: tx0[i], tangent: tan[i], joints: ids[i], weights: wts[i] });
        i += 1;
    }
    Attributes::NoTex1TangentBones(out)
}

fn build_tex1notangentnobones(
    p: &PrimitiveDesc,
    has_joints: bool,
    bufs: &Buffers,
    pos: &Vec<[u32; 3]>,
    nor: &Vec<[u32; 3]>,
    tx0: &Vec<[Value; 2]>,
    tx1: &Vec<[Value; 2]>,
    tan: &Vec<[u32; 4]>,
    ids: &Vec<[u16; 4]>,
    wts: &Vec<[Value; 4]>,
) -> (r: Attributes)
    requires
        streams_ready(*p, has_joints, bufs@, pos@, nor@, tx0@, tx1@, tan@, ids@, wts@),
        has_tex1(*p),
        !has_tangents(*p),
        !has_bones(*p, has_joints),
    ensures
        attributes_built(r, *p, has_joints, bufs@),
{
    let n = pos.len();
    let mut out: Vec<VertexTex1NoTangentNoBones> = Vec::new();
    let mut i: usize = 0;
    while i < n
        invariant
            0 <= i <= n,
            n == pos@.len(),
            streams_ready(*p, has_joints, bufs@, pos@, nor@, tx0@, tx1@, tan@, ids@, wts@),
            has_tex1(*p),
            !has_tangents(*p),
            !has_bones(*p, has_joints),
            out@.len() == i,
            forall|k: int| 0 <= k < i ==> base_at(*p, bufs@, k, (#[trigger] out@[k]).position, out@[k].normal, out@[k].texcoord0) && tex1_at(*p, bufs@, k, out@[k].texcoord1),
        decreases n - i,
    {
        proof {
            assert(pos@[i as int]@ == pos_stream(*p, bufs@)->Ok_0[i as int]);
            assert(nor@[i as int]@ == nor_stream(*p, bufs@)->Ok_0[i as int]);
            assert(tx0@[i as int]@ == normalized_row(p.tex_coords_0->Some_0.component_type, tx0_stream(*p, bufs@)->Ok_0[i as int]));
            assert(tx1@[i as int]@ == normalized_row(p.tex_coords_1->Some_0.component_type, tx1_stream(*p, bufs@)->Ok_0[i as int]));
        }
        out.push(VertexTex1NoTangentNoBones { position: pos[i], normal: nor[i], texcoord0: tx0[i], texcoord1: tx1[i] });
        i += 1;
    }
    Attributes::Tex1NoTangentNoBones(out)
}

fn build_tex1notangentbones(
    p: &PrimitiveDesc,
    has_joints: bool,
    bufs: &Buffers,
    pos: &Vec<[u32; 3]>,
    nor: &Vec<[u32; 3]>,
    tx0: &Vec<[Value; 2]>,
    tx1: &Vec<[Value; 2]>,
    tan: &Vec<[u32; 4]>,
    ids: &Vec<[u16; 4]>,
    wts: &Vec<[Value; 4]>,
) -> (r: Attributes)
    requires
        streams_ready(*p, has_joints, bufs@, pos@, nor@, tx0@, tx1@, tan@, ids@, wts@),
        has_tex1(*p),
        !has_tangents(*p),
        has_bones(*p, has_joints),
    ensures
        attributes_built(r, *p, has_joints, bufs@),
{
    let n = pos.len();
    let mut out: Vec<VertexTex1NoTangentBones> = Vec::new();
    let mut i: usize = 0;
    while i < n
        invariant
            0 <= i <= n,
            n == pos@.len(),
            streams_ready(*p, has_joints, bufs@, pos@, nor@, tx0@, tx1@, tan@, ids@, wts@),
            has_tex1(*p),
            !has_tangents(*p),
            has_bones(*p, has_joints),
            out@.len() == i,
            forall|k: int| 0 <= k < i ==> base_at(*p, bufs@, k, (#[trigger] out@[k]).position, out@[k].normal, out@[k].texcoord0) && tex1_at(*p, bufs@, k, out@[k].texcoord1) && bones_at(*p, bufs@, k, out@[k].joints, out@[k].weights),
        decreases n - i,
    {
        proof {
            assert(pos@[i as int]@ == pos_stream(*p, bufs@)->Ok_0[i as int]);
            assert(nor@[i as int]@ == nor_stream(*p, bufs@)->Ok_0[i as int]);
            assert(tx0@[i as int]@ == normalized_row(p.tex_coords_0->Some_0.component_type, tx0_stream(*p, bufs@)->Ok_0[i as int]));
            assert(tx1@[i as int]@ == normalized_row(p.tex_coords_1->Some_0.component_type, tx1_stream(*p, bufs@)->Ok_0[i as int]));
            assert(ids@[i as int]@ == ids_stream(*p, bufs@)->Ok_0[i as int].map_values(|c: u32| c as u16));
            assert(wts@[i as int]@ == normalized_row(p.weights_0->Some_0.component_type, wts_stream(*p, bufs@)->Ok_0[i as int]));
        }
        out.push(VertexTex1NoTangentBones { position: pos[i], normal: nor[i], texcoord0: tx0[i], texcoord1: tx1[i], joints: ids[i], weights: wts[i] });
        i += 1;
    }
    Attributes::Tex1NoTangentBones(out)
}

fn build_tex1tangentnobones(
    p: &PrimitiveDesc,
    has_joints: bool,
    bufs: &Buffers,
    pos: &Vec<[u32; 3]>,
    nor: &Vec<[u32; 3]>,
    tx0: &Vec<[Value; 2]>,
    tx1: &Vec<[Value; 2]>,
    tan: &Vec<[u32; 4]>,
    ids: &Vec<[u16; 4]>,
    wts: &Vec<[Value; 4]>,
) -> (r: Attributes)
    requires
        streams_ready(*p, has_joints, bufs@, pos@, nor@, tx0@, tx1@, tan@, ids@, wts@),
        has_tex1(*p),
        has_tangents(*p),
        !has_bones(*p, has_joints),
    ensures
        attributes_built(r, *p, has_joints, bufs@),
{
    let n = pos.len();
    let mut out: Vec<VertexTex1TangentNoBones> = Vec::new();
    let mut i: usize = 0;
    while i < n
        invariant
            0 <= i <= n,
            n == pos@.len(),
            streams_ready(*p, has_joints, bufs@, pos@, nor@, tx0@, tx1@, tan@, ids@, wts@),
            has_tex1(*p),
            has_tangents(*p),
            !has_bones(*p, has_joints),
            out@.len() == i,
            forall|k: int| 0 <= k < i ==> base_at(*p, bufs@, k, (#[trigger] out@[k]).position, out@[k].normal, out@[k].texcoord0) && tex1_at(*p, bufs@, k, out@[k].texcoord1) && tangent_at(*p, bufs@, k, out@[k].tangent),
        decreases n - i,
    {
        proof {
            assert(pos@[i as int]@ == pos_stream(*p, bufs@)->Ok_0[i as int]);
            assert(nor@[i as int]@ == nor_stream(*p, bufs@)->Ok_0[i as int]);
            assert(tx0@[i as int]@ == normalized_row(p.tex_coords_0->Some_0.component_type, tx0_stream(*p, bufs@)->Ok_0[i as int]));
            assert(tx1@[i as int]@ == normalized_row(p.tex_coords_1->Some_0.component_type, tx1_stream(*p, bufs@)->Ok_0[i as int]));
            assert(tan@[i as int]@ == tan_stream(*p, bufs@)->Ok_0[i as int]);
        }
        out.push(VertexTex1TangentNoBones { position: pos[i], normal: nor[i], texcoord0: tx0[i], texcoord1: tx1[i], tangent: tan[i] });
        i += 1;
    }
    Attributes::Tex1TangentNoBones(out)
}

fn build_tex1tangentbones(
    p: &PrimitiveDesc,
    has_joints: bool,
    bufs: &Buffers,
    pos: &Vec<[u32; 3]>,
    nor: &Vec<[u32; 3]>,
    tx0: &Vec<[Value; 2]>,
    tx1: &Vec<[Value; 2]>,
    tan: &Vec<[u32; 4]>,
    ids: &Vec<[u16; 4]>,
    wts: &Vec<[Value; 4]>,
) -> (r: Attributes)
    requires
        streams_ready(*p, has_joints, bufs@, pos@, nor@, tx0@, tx1@, tan@, ids@, wts@),
        has_tex1(*p),
        has_tangents(*p),
        has_bones(*p, has_joints),
    ensures
        attributes_built(r, *p, has_joints, bufs@),
{
    let n = pos.len();
    let mut out: Vec<VertexTex1TangentBones> = Vec::new();
    let mut i: usize = 0;
    while i < n
        invariant
            0 <= i <= n,
            n == pos@.len(),
            streams_ready(*p, has_joints, bufs@, pos@, nor@, tx0@, tx1@, tan@, ids@, wts@),
            has_tex1(*p),
            has_tangents(*p),
            has_bones(*p, has_joints),
            out@.len() == i,
            forall|k: int| 0 <= k < i ==> base_at(*p, bufs@, k, (#[trigger] out@[k]).position, out@[k].normal, out@[k].texcoord0) && tex1_at(*p, bufs@, k, out@[k].texcoord1) && tangent_at(*p, bufs@, k, out@[k].tangent) && bones_at(*p, bufs@, k, out@[k].joints, out@[k].weights),
        decreases n - i,
    {
        proof {
            assert(pos@[i as int]@ == pos_stream(*p, bufs@)->Ok_0[i as int]);
            assert(nor@[i as int]@ == nor_stream(*p, bufs@)->Ok_0[i as int]);
            assert(tx0@[i as int]@ == normalized_row(p.tex_coords_0->Some_0.component_type, tx0_stream(*p, bufs@)->Ok_0[i as int]));
            assert(tx1@[i as int]@ == normalized_row(p.tex_coords_1->Some_0.component_type, tx1_stream(*p, bufs@)->Ok_0[i as int]));
            assert(tan@[i as int]@ == tan_stream(*p, bufs@)->Ok_0[i as int]);
            assert(ids@[i as int]@ == ids_stream(*p, bufs@)->Ok_0[i as int].map_values(|c: u32| c as u16));
            assert(wts@[i as int]@ == normalized_row(p.weights_0->Some_0.component_type, wts_stream(*p, bufs@)->Ok_0[i as int]));
        }
        out.push(VertexTex1TangentBones { position: pos[i], normal: nor[i], texcoord0: tx0[i], texcoord1: tx1[i], tangent: tan[i], joints: ids[i], weights: wts[i] });
        i += 1;
    }
    Attributes::Tex1TangentBones(out)
}

/// Assembles the vertices of a primitive.
///
/// Positions, normals and the first texture coordinates must be declared.
/// A second texture coordinate set and tangents are used when declared; bones
/// when the caller's node is skinned and joint indices are declared, and then
/// weights must be declared too. Every stream of the chosen shape must have
/// as many elements as the positions: nothing is truncated or padded.
pub fn get_attributes(p: &PrimitiveDesc, has_joints: bool, bufs: &Buffers) -> (r: Result<
    Attributes,
    ConvertError,
>)
    ensures
        match r {
            Ok(a) => attributes_error(*p, has_joints, bufs@) is None && attributes_built(
                a,
                *p,
                has_joints,
                bufs@,
            ),
            Err(e) => attributes_error(*p, has_joints, bufs@) == Some(e),
        },
{
    let pa = match &p.positions {
        Some(a) => a,
        None => {
            return Err(ConvertError::MissingAttributes);
        },
    };
    let na = match &p.normals {
        Some(a) => a,
        None => {
            return Err(ConvertError::MissingAttributes);
        },
    };
    let ta = match &p.tex_coords_0 {
        Some(a) => a,
        None => {
            return Err(ConvertError::MissingAttributes);
        },
    };
    let bones = has_joints && p.joints_0.is_some();
    if bones && p.weights_0.is_none() {
        return Err(ConvertError::MissingAttributes);
    }
    let pos = match read_vec3_f32(pa, bufs) {
        Ok(v) => v,
        Err(e) => {
            return Err(e);
        },
    };
    let nor = match read_vec3_f32(na, bufs) {
        Ok(v) => v,
        Err(e) => {
            return Err(e);
        },
    };
    let tx0 = match read_vec2_norm(ta, bufs) {
        Ok(v) => v,
        Err(e) => {
            return Err(e);
        },
    };
    let tex1 = p.tex_coords_1.is_some();
    let tx1 = match &p.tex_coords_1 {
        Some(a) => match read_vec2_norm(a, bufs) {
            Ok(v) => v,
            Err(e) => {
                return Err(e);
            },
        },
        None => Vec::new(),
    };
    let tangents = p.tangents.is_some();
    let tan = match &p.tangents {
        Some(a) => match read_vec4_f32(a, bufs) {
            Ok(v) => v,
            Err(e) => {
                return Err(e);
            },
        },
        None => Vec::new(),
    };
    let ids = match &p.joints_0 {
        Some(a) => if bones {
            match read_vec4_u16(a, bufs) {
                Ok(v) => v,
                Err(e) => {
                    return Err(e);
                },
            }
        } else {
            Vec::new()
        },
        None => Vec::new(),
    };
    let wts = match &p.weights_0 {
        Some(a) => if bones {
            match read_vec4_unorm(a, bufs) {
                Ok(v) => v,
                Err(e) => {
                    return Err(e);
                },
            }
        } else {
            Vec::new()
        },
        None => Vec::new(),
    };
    let n = pos.len();
    if nor.len() != n || tx0.len() != n || (tex1 && tx1.len() != n) || (tangents && tan.len()
        != n) || (bones && (ids.len() != n || wts.len() != n)) {
        return Err(ConvertError::Other);
    }
    match (tex1, tangents, bones) {
        (false, false, false) => Ok(build_notex1notangentnobones(p, has_joints, bufs, &pos, &nor, &tx0, &tx1, &tan, &ids, &wts)),
        (false, false, true) => Ok(build_notex1notangentbones(p, has_joints, bufs, &pos, &nor, &tx0, &tx1, &tan, &ids, &wts)),
        (false, true, false) => Ok(build_notex1tangentnobones(p, has_joints, bufs, &pos, &nor, &tx0, &tx1, &tan, &ids, &wts)),
        (false, true, true) => Ok(build_notex1tangentbones(p, has_joints, bufs, &pos, &nor, &tx0, &tx1, &tan, &ids, &wts)),
        (true, false, false) => Ok(build_tex1notangentnobones(p, has_joints, bufs, &pos, &nor, &tx0, &tx1, &tan, &ids, &wts)),
        (true, false, true) => Ok(build_tex1notangentbones(p, has_joints, bufs, &pos, &nor, &tx0, &tx1, &tan, &ids, &wts)),
        (true, true, false) => Ok(build_tex1tangentnobones(p, has_joints, bufs, &pos, &nor, &tx0, &tx1, &tan, &ids, &wts)),
        (true, true, true) => Ok(build_tex1tangentbones(p, has_joints, bufs, &pos, &nor, &tx0, &tx1, &tan, &ids, &wts)),
    }
}

/// What decoding a primitive's vertex indices gives.
pub open spec fn indices_outcome(p: PrimitiveDesc, bufs: Seq<Seq<u8>>) -> Result<
    Seq<Seq<u32>>,
    ConvertError,
> {
    let a = p.indices->Some_0;
    typed_outcome(a, bufs, Dimensions::Scalar, unsigned_integer(a.component_type))
}

/// Why a primitive cannot be converted, if it cannot; checked in this order.
pub open spec fn primitive_error(
    p: PrimitiveDesc,
    has_joints: bool,
    bufs: Seq<Seq<u8>>,
    materials: Materials,
) -> Option<ConvertError> {
    if p.material is None {
        Some(ConvertError::NoMaterial)
    } else if material_name(materials, p.material->Some_0 as int) is None {
        Some(ConvertError::Other)
    } else if attributes_error(p, has_joints, bufs) is Some {
        attributes_error(p, has_joints, bufs)
    } else if p.indices is None {
        Some(ConvertError::MissingAttributes)
    } else if indices_outcome(p, bufs) is Err {
        Some(indices_outcome(p, bufs)->Err_0)
    } else {
        None
    }
}

/// A converted primitive names its material and holds its vertices and indices.
pub open spec fn primitive_built(
    pr: Primitive,
    p: PrimitiveDesc,
    has_joints: bool,
    bufs: Seq<Seq<u8>>,
    materials: Materials,
) -> bool {
    &&& pr.material@ == material_name(materials, p.material->Some_0 as int)->Some_0
    &&& attributes_built(pr.attributes, p, has_joints, bufs)
    &&& pr.indices@ == firsts(indices_outcome(p, bufs)->Ok_0)
}

/// Reads the vertex indices of a primitive, which must have them.
pub fn get_indices(p: &PrimitiveDesc, bufs: &Buffers) -> (r: Result<Vec<u32>, ConvertError>)
    ensures
        match r {
            Ok(v) => p.indices is Some && indices_outcome(*p, bufs@) is Ok && v@ == firsts(
                indices_outcome(*p, bufs@)->Ok_0,
            ),
            Err(e) => (p.indices is None && e == ConvertError::MissingAttributes) || (
            p.indices is Some && indices_outcome(*p, bufs@) == Err::<Seq<Seq<u32>>, ConvertError>(e)),
        },
{
    match &p.indices {
        Some(a) => read_indices_u32(a, bufs),
        None => Err(ConvertError::MissingAttributes),
    }
}

/// Converts one primitive: its material (which must exist), vertices and indices.
pub fn get_primitive(p: &PrimitiveDesc, has_joints: bool, bufs: &Buffers, materials: &Materials) -> (r:
    Result<Primitive, ConvertError>)
    ensures
        match r {
            Ok(pr) => primitive_error(*p, has_joints, bufs@, *materials) is None && primitive_built(
                pr,
                *p,
                has_joints,
                bufs@,
                *materials,
            ),
            Err(e) => primitive_error(*p, has_joints, bufs@, *materials) == Some(e),
        },
{
    let material_index = match p.material {
        Some(i) => i,
        None => {
            return Err(ConvertError::NoMaterial);
        },
    };
    let material = match materials.get(material_index) {
        Some(name) => name.to_owned(),
        None => {
            return Err(ConvertError::Other);
        },
    };
    let attributes = match get_attributes(p, has_joints, bufs) {
        Ok(a) => a,
        Err(e) => {
            return Err(e);
        },
    };
    let indices = match get_indices(p, bufs) {
        Ok(v) => v,
        Err(e) => {
            return Err(e);
        },
    };
    Ok(Primitive { material, attributes, indices })
}

/// Converts every primitive of a mesh, in order; the first failure aborts.
pub fn get(prims: &Vec<PrimitiveDesc>, has_joints: bool, bufs: &Buffers, materials: &Materials) -> (r:
    Result<Vec<Primitive>, ConvertError>)
    ensures
        match r {
            Ok(v) => v@.len() == prims@.len() && forall|i: int|
                0 <= i < prims@.len() ==> primitive_error(
                    #[trigger] prims@[i],
                    has_joints,
                    bufs@,
                    *materials,
                ) is None && primitive_built(v@[i], prims@[i], has_joints, bufs@, *materials),
            Err(e) => exists|i: int|
                0 <= i < prims@.len() && primitive_error(
                    #[trigger] prims@[i],
                    has_joints,
                    bufs@,
                    *materials,
                ) == Some(e) && forall|k: int|
                    0 <= k < i ==> primitive_error(
                        #[trigger] prims@[k],
                        has_joints,
                        bufs@,
                        *materials,
                    ) is None,
        },
{
    let mut out: Vec<Primitive> = Vec::new();
    let mut i: usize = 0;
    while i < prims.len()
        invariant
            0 <= i <= prims@.len(),
            out@.len() == i,
            forall|k: int|
                0 <= k < i ==> primitive_error(
                    #[trigger] prims@[k],
                    has_joints,
                    bufs@,
                    *materials,
                ) is None && primitive_built(out@[k], prims@[k], has_joints, bufs@, *materials),
        decreases prims@.len() - i,
    {
        match get_primitive(&prims[i], has_joints, bufs, materials) {
            Ok(pr) => out.push(pr),
            Err(e) => {
                return Err(e);
            },
        }
        i += 1;
    }
    Ok(out)
}

} // verus!
