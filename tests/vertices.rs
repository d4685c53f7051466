use wg3d::accessor::{Accessor, BufferView, Buffers, ComponentType, Dimensions, Value};
use wg3d::material::{Material, Materials, AlphaMode, BaseColor, MetallicRoughness};
use wg3d::mesh::{get as get_mesh, MeshDesc};
use wg3d::morph_target::{get as get_morph_targets, get_data, Data, MorphTargetDesc};
use wg3d::primitive::{get_attributes, get_primitive, Attributes, PrimitiveDesc};
use wg3d::ConvertError;

fn acc(offset: usize, count: usize, ct: ComponentType, d: Dimensions) -> Accessor {
    Accessor {
        view: Some(BufferView { buffer: 0, byte_offset: offset, byte_stride: None }),
        count,
        component_type: ct,
        dimensions: d,
        sparse: None,
    }
}

/// 1024 bytes counting upwards as f32 values 0, 1, 2, ...
fn floats() -> Buffers {
    let mut bytes = Vec::new();
    for i in 0..256 {
        bytes.extend_from_slice(&(i as f32).to_le_bytes());
    }
    let mut b = Buffers::new();
    b.push_checked(bytes.len(), bytes).unwrap();
    b
}

fn basic(n_pos: usize, n_nor: usize) -> PrimitiveDesc {
    PrimitiveDesc {
        material: Some(0),
        positions: Some(acc(0, n_pos, ComponentType::F32, Dimensions::Vec3)),
        normals: Some(acc(120, n_nor, ComponentType::F32, Dimensions::Vec3)),
        tex_coords_0: Some(acc(240, n_pos, ComponentType::F32, Dimensions::Vec2)),
        tex_coords_1: None,
        tangents: None,
        joints_0: None,
        weights_0: None,
        indices: None,
        targets: vec![],
    }
}

fn materials() -> Materials {
    Materials {
        materials: vec![Material {
            name: "stone".to_string(),
            alpha_cutoff: 0,
            alpha_mode: AlphaMode::Opaque,
            double_sided: false,
            base_color: BaseColor::Factor([0; 4]),
            metal_roughness: MetallicRoughness::Factor { metallicity: 0, roughness: 0 },
            normal_map: None,
            occlusion_map: None,
            emission_map: None,
        }],
    }
}

#[test]
fn base_shape_only() {
    let p = basic(10, 10);
    match get_attributes(&p, false, &floats()).unwrap() {
        Attributes::NoTex1NoTangentNoBones(v) => {
            assert_eq!(v.len(), 10);
            assert_eq!(f32::from_bits(v[3].position[1]), 10.0);
            assert_eq!(f32::from_bits(v[3].normal[0]), 39.0);
            assert_eq!(v[3].texcoord0[1], Value::Float(67.0f32.to_bits()));
        },
        _ => panic!("expected the base shape"),
    }
}

#[test]
fn tangent_switches_shape_but_not_bones() {
    let mut p = basic(10, 10);
    p.tangents = Some(acc(400, 10, ComponentType::F32, Dimensions::Vec4));
    match get_attributes(&p, false, &floats()).unwrap() {
        Attributes::NoTex1TangentNoBones(v) => {
            assert_eq!(v.len(), 10);
            assert_eq!(f32::from_bits(v[1].tangent[3]), 107.0);
        },
        _ => panic!("expected the tangent shape"),
    }
    // Skinned node without joint streams: still no bones.
    assert!(matches!(get_attributes(&p, true, &floats()), Ok(Attributes::NoTex1TangentNoBones(_))));
}

#[test]
fn all_optional_streams() {
    let mut p = basic(4, 4);
    p.tex_coords_1 = Some(acc(300, 4, ComponentType::U16, Dimensions::Vec2));
    p.tangents = Some(acc(400, 4, ComponentType::F32, Dimensions::Vec4));
    p.joints_0 = Some(acc(500, 4, ComponentType::U8, Dimensions::Vec4));
    p.weights_0 = Some(acc(600, 4, ComponentType::F32, Dimensions::Vec4));
    match get_attributes(&p, true, &floats()).unwrap() {
        Attributes::Tex1TangentBones(v) => {
            assert_eq!(v.len(), 4);
            assert_eq!(v[0].texcoord1[0], Value::Norm { num: 0, den: 65535 });
            // Bytes 500..504 hold 125.0f32 = 0x42fa0000, little-endian.
            assert_eq!(v[0].joints, [0x00, 0x00, 0xfa, 0x42]);
            assert_eq!(v[0].weights[0], Value::Float(150.0f32.to_bits()));
        },
        _ => panic!("expected the full shape"),
    }
    assert!(matches!(get_attributes(&p, false, &floats()), Ok(Attributes::Tex1TangentNoBones(_))));
}

#[test]
fn cardinality_mismatch() {
    let p = basic(10, 9);
    assert!(matches!(get_attributes(&p, false, &floats()), Err(ConvertError::Other)));
}

#[test]
fn missing_required_streams() {
    let mut p = basic(4, 4);
    p.normals = None;
    assert!(matches!(get_attributes(&p, false, &floats()), Err(ConvertError::MissingAttributes)));
    let mut p = basic(4, 4);
    p.joints_0 = Some(acc(500, 4, ComponentType::U8, Dimensions::Vec4));
    assert!(matches!(get_attributes(&p, true, &floats()), Err(ConvertError::MissingAttributes)));
    let mut p = basic(4, 4);
    p.positions = Some(acc(0, 4, ComponentType::U16, Dimensions::Vec3));
    assert!(matches!(get_attributes(&p, false, &floats()), Err(ConvertError::UnsupportedDataType)));
}

#[test]
fn primitive_material_and_indices() {
    let mut p = basic(4, 4);
    assert!(matches!(get_primitive(&p, false, &floats(), &materials()), Err(ConvertError::MissingAttributes)));
    p.indices = Some(acc(0, 2, ComponentType::U32, Dimensions::Scalar));
    let prim = get_primitive(&p, false, &floats(), &materials()).unwrap();
    assert_eq!(prim.material, "stone");
    // 0.0f32 and 1.0f32 read as u32.
    assert_eq!(prim.indices, vec![0, 0x3f80_0000]);
    p.material = None;
    assert!(matches!(get_primitive(&p, false, &floats(), &materials()), Err(ConvertError::NoMaterial)));
    p.material = Some(3);
    assert!(matches!(get_primitive(&p, false, &floats(), &materials()), Err(ConvertError::Other)));
    assert_eq!(materials().get(0), Some("stone"));
    assert_eq!(materials().get(1), None);
}

#[test]
fn mesh_takes_node_name() {
    let mut p = basic(4, 4);
    p.indices = Some(acc(0, 3, ComponentType::U8, Dimensions::Scalar));
    let m = get_mesh(&MeshDesc { primitives: vec![p] }, "body", false, &floats(), &materials()).unwrap();
    assert_eq!(m.name, "body");
    assert_eq!(m.primitives.len(), 1);
    assert_eq!(m.primitives[0].indices, vec![0, 0, 0]);
}

#[test]
fn morph_targets_full_and_sparse() {
    let full = Some(acc(0, 2, ComponentType::F32, Dimensions::Vec3));
    match get_data(&full, &floats()).unwrap() {
        Some(Data::Full(v)) => assert_eq!(f32::from_bits(v[1][2]), 5.0),
        _ => panic!("expected full data"),
    }
    let mut bytes = vec![2u8, 0];
    for x in [1.0f32, 2.0, 3.0] {
        bytes.extend_from_slice(&x.to_le_bytes());
    }
    let mut b = Buffers::new();
    b.push_checked(bytes.len(), bytes).unwrap();
    let sparse = Some(Accessor {
        view: None,
        count: 4,
        component_type: ComponentType::F32,
        dimensions: Dimensions::Vec3,
        sparse: Some(wg3d::accessor::Sparse {
            count: 1,
            index_type: wg3d::accessor::IndexType::U16,
            indices: BufferView { buffer: 0, byte_offset: 0, byte_stride: None },
            values: BufferView { buffer: 0, byte_offset: 2, byte_stride: None },
        }),
    });
    match get_data(&sparse, &b).unwrap() {
        Some(Data::Sparse(v)) => {
            assert_eq!(v.len(), 1);
            assert_eq!(v[0].index, 2);
            assert_eq!(f32::from_bits(v[0].value[1]), 2.0);
        },
        _ => panic!("expected sparse data"),
    }
    let wrong = Some(acc(0, 2, ComponentType::F32, Dimensions::Vec4));
    assert!(matches!(get_data(&wrong, &floats()), Err(ConvertError::UnsupportedDimensions)));
    let wrong = Some(acc(0, 2, ComponentType::U16, Dimensions::Vec3));
    assert!(matches!(get_data(&wrong, &floats()), Err(ConvertError::UnsupportedDataType)));
    assert!(matches!(get_data(&None, &floats()), Ok(None)));
    let targets = vec![MorphTargetDesc { positions: full, normals: None, tangents: None }];
    assert_eq!(get_morph_targets(&targets, &floats()).unwrap().len(), 1);
}
