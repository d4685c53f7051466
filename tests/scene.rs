use wg3d::accessor::{Accessor, BufferView, Buffers, ComponentType, Dimensions};
use wg3d::convert::{get_models, scene_order};
use wg3d::material::{
    get as get_materials, get_emission_map, AlphaMode, BaseColor, EmissionMap, MaterialDesc,
    Materials, TextureRef,
};
use wg3d::mesh::MeshDesc;
use wg3d::primitive::PrimitiveDesc;
use wg3d::scene::Node;
use wg3d::texture::{
    get as get_textures, image_bytes, Format, Image, MagFilter, MinFilter, TextureDesc, Textures,
    WrappingMode,
};
use wg3d::ConvertError;

fn node(name: Option<&str>, children: Vec<usize>, mesh: Option<usize>) -> Node {
    Node {
        name: name.map(|s| s.to_string()),
        children,
        transform: [0; 16],
        mesh,
        skin: None,
    }
}

fn texture_desc(name: Option<&str>) -> TextureDesc {
    TextureDesc {
        name: name.map(|s| s.to_string()),
        mag_filter: None,
        min_filter: Some(MinFilter::LinearMipmapLinear),
        wrap_s: WrappingMode::Repeat,
        wrap_t: WrappingMode::ClampToEdge,
        image: Image { width: 1, height: 2, format: Format::RgbImage, contents: vec![1, 2, 3, 4, 5, 6] },
    }
}

fn textures() -> Textures {
    get_textures(&vec![texture_desc(Some("bricks"))]).unwrap()
}

fn material_desc(name: Option<&str>) -> MaterialDesc {
    MaterialDesc {
        name: name.map(|s| s.to_string()),
        alpha_cutoff: 0.5f32.to_bits(),
        alpha_mode: AlphaMode::Mask,
        double_sided: true,
        base_color_factor: [1.0f32.to_bits(); 4],
        base_color_texture: Some(TextureRef { index: 0, tex_coord: 1 }),
        metallic_factor: 0,
        roughness_factor: 0,
        metallic_roughness_texture: None,
        normal_texture: None,
        normal_scale: 0,
        occlusion_texture: None,
        occlusion_strength: 0,
        emissive_texture: None,
        emissive_factor: [0, 0x8000_0000, 0],
    }
}

#[test]
fn textures_default_filters_and_lookup() {
    let t = textures();
    assert_eq!(t.get(0), Some("bricks"));
    assert_eq!(t.get(1), None);
    let tex = &t.textures[0];
    assert_eq!(tex.mag_filter, MagFilter::Nearest);
    assert_eq!(tex.min_filter, MinFilter::LinearMipmapLinear);
    assert_eq!(tex.wrap_t_mode, WrappingMode::ClampToEdge);
    assert_eq!(tex.contents, vec![1, 2, 3, 4, 5, 6]);
    assert!(matches!(get_textures(&vec![texture_desc(None)]), Err(ConvertError::NoName)));
}

#[test]
fn image_bytes_from_view() {
    let mut b = Buffers::new();
    b.push_checked(6, vec![9, 8, 7, 6, 5, 4]).unwrap();
    let view = BufferView { buffer: 0, byte_offset: 2, byte_stride: None };
    assert_eq!(image_bytes(&b, view, 3), Ok(vec![7, 6, 5]));
    assert_eq!(image_bytes(&b, view, 5), Err(ConvertError::MissingImageBuffer));
    let other = BufferView { buffer: 1, byte_offset: 0, byte_stride: None };
    assert_eq!(image_bytes(&b, other, 1), Err(ConvertError::MissingImageBuffer));
}

#[test]
fn materials_name_textures_and_drop_black_emission() {
    let ms = get_materials(&vec![material_desc(Some("wall"))], &textures()).unwrap();
    let m = &ms.materials[0];
    assert_eq!(ms.get(0), Some("wall"));
    assert_eq!(m.alpha_mode, AlphaMode::Mask);
    match &m.base_color {
        BaseColor::Texture { tex_coord, name } => {
            assert_eq!(*tex_coord, 1);
            assert_eq!(name, "bricks");
        },
        _ => panic!("expected a texture"),
    }
    // +0 and -0 are both black.
    assert!(m.emission_map.is_none());
    let mut lit = material_desc(Some("lamp"));
    lit.emissive_factor = [0, 1.0f32.to_bits(), 0];
    assert!(matches!(get_emission_map(&lit, &textures()), Ok(Some(EmissionMap::Factor(_)))));
    let mut broken = material_desc(Some("broken"));
    broken.base_color_texture = Some(TextureRef { index: 5, tex_coord: 0 });
    assert!(matches!(get_materials(&vec![broken], &textures()), Err(ConvertError::MissingImageBuffer)));
    assert!(matches!(get_materials(&vec![material_desc(None)], &textures()), Err(ConvertError::NoName)));
}

#[test]
fn scene_order_is_depth_first() {
    // 0 -> [1, 3], 1 -> [2], 4 is a second root.
    let nodes = vec![
        node(Some("a"), vec![1, 3], None),
        node(Some("b"), vec![2], None),
        node(Some("c"), vec![], None),
        node(Some("d"), vec![], None),
        node(Some("e"), vec![], None),
    ];
    assert_eq!(scene_order(&vec![0, 4], &nodes), Ok(vec![0, 1, 2, 3, 4]));
    let cyclic = vec![node(Some("a"), vec![1], None), node(Some("b"), vec![0], None)];
    assert_eq!(scene_order(&vec![0], &cyclic), Err(ConvertError::Other));
    assert_eq!(scene_order(&vec![7], &nodes), Err(ConvertError::Other));
}

#[test]
fn models_follow_mesh_nodes() {
    let mut bytes = Vec::new();
    for i in 0..32 {
        bytes.extend_from_slice(&(i as f32).to_le_bytes());
    }
    let mut b = Buffers::new();
    b.push_checked(bytes.len(), bytes).unwrap();
    let a = |offset: usize, d: Dimensions| Accessor {
        view: Some(BufferView { buffer: 0, byte_offset: offset, byte_stride: None }),
        count: 2,
        component_type: ComponentType::F32,
        dimensions: d,
        sparse: None,
    };
    let prim = PrimitiveDesc {
        material: Some(0),
        positions: Some(a(0, Dimensions::Vec3)),
        normals: Some(a(24, Dimensions::Vec3)),
        tex_coords_0: Some(a(48, Dimensions::Vec2)),
        tex_coords_1: None,
        tangents: None,
        joints_0: None,
        weights_0: None,
        indices: Some(Accessor { component_type: ComponentType::U8, ..a(0, Dimensions::Scalar) }),
        targets: vec![],
    };
    let meshes = vec![MeshDesc { primitives: vec![prim] }];
    let mats: Materials = get_materials(&vec![material_desc(Some("wall"))], &textures()).unwrap();
    let nodes = vec![
        node(Some("root"), vec![1, 2], None),
        node(Some("left"), vec![], Some(0)),
        node(Some("right"), vec![], Some(0)),
    ];
    let models = get_models(&vec![0], &nodes, &meshes, &b, &mats).unwrap();
    let names: Vec<&str> = models.iter().map(|m| m.mesh.name.as_str()).collect();
    assert_eq!(names, vec!["left", "right"]);
    assert_eq!(models[1].node, 2);
    let unnamed = vec![node(Some("root"), vec![1], None), node(None, vec![], Some(0))];
    assert!(matches!(get_models(&vec![0], &unnamed, &meshes, &b, &mats), Err(ConvertError::NoName)));
    let no_mesh = vec![node(Some("root"), vec![], Some(4))];
    assert!(matches!(get_models(&vec![0], &no_mesh, &meshes, &b, &mats), Err(ConvertError::Other)));
}
