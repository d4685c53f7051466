use wg3d::accessor::{Accessor, BufferView, Buffers, ComponentType, Dimensions, Value};
use wg3d::animation::{
    get as get_animations, get_animation, get_channel, pad_times, AnimationDesc, Channel,
    ChannelDesc, Interpolation, Property,
};
use wg3d::scene::Node;
use wg3d::skin::{get_skin, Skin, SkinDesc};
use wg3d::ConvertError;

fn bits(v: &[f32]) -> Vec<u32> {
    v.iter().map(|x| x.to_bits()).collect()
}

fn skins() -> Vec<Skin> {
    let nodes = vec![
        Node { name: Some("root".to_string()), children: vec![1], transform: [0; 16], mesh: None, skin: None },
        Node { name: Some("arm".to_string()), children: vec![], transform: [0; 16], mesh: None, skin: None },
        Node { name: Some("prop".to_string()), children: vec![], transform: [0; 16], mesh: None, skin: None },
    ];
    let desc = SkinDesc {
        name: Some("s".to_string()),
        joints: vec![0, 1],
        skeleton: Some(0),
        inverse_bind_matrices: None,
    };
    vec![get_skin(&desc, &nodes, &Buffers::new()).unwrap()]
}

fn acc(offset: usize, count: usize, ct: ComponentType, d: Dimensions) -> Accessor {
    Accessor {
        view: Some(BufferView { buffer: 0, byte_offset: offset, byte_stride: None }),
        count,
        component_type: ct,
        dimensions: d,
        sparse: None,
    }
}

/// Times [0, 1, 2] at offset 0, then `n` vec3 translations at offset 12.
fn buffer_with(n: usize) -> Buffers {
    let mut bytes = Vec::new();
    for t in [0.0f32, 1.0, 2.0] {
        bytes.extend_from_slice(&t.to_le_bytes());
    }
    for i in 0..n * 3 {
        bytes.extend_from_slice(&(i as f32).to_le_bytes());
    }
    let mut b = Buffers::new();
    b.push_checked(bytes.len(), bytes).unwrap();
    b
}

#[test]
fn spline_padding() {
    let t = bits(&[0.0, 1.0, 2.0]);
    assert_eq!(pad_times(Interpolation::Cubic, t.clone()), bits(&[0.0, 1.0, 2.0, 0.0, 2.0]));
    assert_eq!(pad_times(Interpolation::CatmullRom, t.clone()), bits(&[0.0, 1.0, 2.0, 0.0, 2.0]));
    assert_eq!(pad_times(Interpolation::Step, t.clone()), t);
    assert_eq!(pad_times(Interpolation::Linear, t.clone()), t);
    assert_eq!(pad_times(Interpolation::Cubic, vec![]), Vec::<u32>::new());
}

#[test]
fn cubic_translation_channel_pairs_padded_times() {
    let c = ChannelDesc {
        target_node: 1,
        property: Property::Translation,
        interpolation: Interpolation::Cubic,
        input: acc(0, 3, ComponentType::F32, Dimensions::Scalar),
        output: acc(12, 5, ComponentType::F32, Dimensions::Vec3),
    };
    match get_channel(&c, &skins(), &buffer_with(5)).unwrap() {
        Channel::Translation { joint_index, interpolation, translations } => {
            assert_eq!(joint_index, 1);
            assert_eq!(interpolation, Interpolation::Cubic);
            let times: Vec<f32> = translations.iter().map(|k| f32::from_bits(k.time_stamp)).collect();
            assert_eq!(times, vec![0.0, 1.0, 2.0, 0.0, 2.0]);
            assert_eq!(f32::from_bits(translations[4].vector[2]), 14.0);
        },
        _ => panic!("expected a translation channel"),
    }
}

#[test]
fn value_count_mismatch_fails() {
    let c = ChannelDesc {
        target_node: 1,
        property: Property::Scale,
        interpolation: Interpolation::Cubic,
        input: acc(0, 3, ComponentType::F32, Dimensions::Scalar),
        output: acc(12, 3, ComponentType::F32, Dimensions::Vec3),
    };
    assert!(matches!(get_channel(&c, &skins(), &buffer_with(3)), Err(ConvertError::Other)));
    let step = ChannelDesc { interpolation: Interpolation::Step, ..c };
    match get_channel(&step, &skins(), &buffer_with(3)).unwrap() {
        Channel::Scale { scales, .. } => assert_eq!(scales.len(), 3),
        _ => panic!("expected a scale channel"),
    }
}

#[test]
fn rotation_channel_denormalizes_i16() {
    let mut bytes = Vec::new();
    for t in [0.5f32, 1.5] {
        bytes.extend_from_slice(&t.to_le_bytes());
    }
    for v in [32767i16, 0, -32767, 0, 0, 0, 0, 32767] {
        bytes.extend_from_slice(&v.to_le_bytes());
    }
    let mut b = Buffers::new();
    b.push_checked(bytes.len(), bytes).unwrap();
    let c = ChannelDesc {
        target_node: 0,
        property: Property::Rotation,
        interpolation: Interpolation::Linear,
        input: acc(0, 2, ComponentType::F32, Dimensions::Scalar),
        output: acc(8, 2, ComponentType::I16, Dimensions::Vec4),
    };
    match get_channel(&c, &skins(), &b).unwrap() {
        Channel::Rotation { joint_index, rotations, .. } => {
            assert_eq!(joint_index, 0);
            assert_eq!(rotations.len(), 2);
            assert_eq!(f32::from_bits(rotations[1].time_stamp), 1.5);
            assert_eq!(rotations[0].quaternion[0], Value::Norm { num: 32767, den: 32767 });
            assert_eq!(rotations[0].quaternion[2], Value::Norm { num: -32767, den: 32767 });
        },
        _ => panic!("expected a rotation channel"),
    }
}

#[test]
fn weights_channel_from_u8() {
    let mut bytes = Vec::new();
    bytes.extend_from_slice(&0.0f32.to_le_bytes());
    bytes.push(255);
    let mut b = Buffers::new();
    b.push_checked(bytes.len(), bytes).unwrap();
    let c = ChannelDesc {
        target_node: 1,
        property: Property::Weights,
        interpolation: Interpolation::Step,
        input: acc(0, 1, ComponentType::F32, Dimensions::Scalar),
        output: acc(4, 1, ComponentType::U8, Dimensions::Scalar),
    };
    match get_channel(&c, &skins(), &b).unwrap() {
        Channel::Weights { weights, .. } => {
            assert_eq!(weights[0].scalar, Value::Norm { num: 255, den: 255 })
        },
        _ => panic!("expected a weights channel"),
    }
}

#[test]
fn empty_spline_channel_fails() {
    let c = ChannelDesc {
        target_node: 1,
        property: Property::Translation,
        interpolation: Interpolation::CatmullRom,
        input: acc(0, 0, ComponentType::F32, Dimensions::Scalar),
        output: acc(12, 0, ComponentType::F32, Dimensions::Vec3),
    };
    assert!(matches!(get_channel(&c, &skins(), &buffer_with(3)), Err(ConvertError::Other)));
    let linear = ChannelDesc { interpolation: Interpolation::Linear, ..c };
    match get_channel(&linear, &skins(), &buffer_with(3)).unwrap() {
        Channel::Translation { translations, .. } => assert!(translations.is_empty()),
        _ => panic!("expected a translation channel"),
    }
}

#[test]
fn i8_rotation_is_unsupported() {
    let c = ChannelDesc {
        target_node: 1,
        property: Property::Rotation,
        interpolation: Interpolation::Linear,
        input: acc(0, 1, ComponentType::F32, Dimensions::Scalar),
        output: acc(12, 1, ComponentType::I8, Dimensions::Vec4),
    };
    assert!(matches!(get_channel(&c, &skins(), &buffer_with(1)), Err(ConvertError::UnsupportedDataType)));
}

#[test]
fn target_outside_skeletons_is_invalid_joint() {
    let c = ChannelDesc {
        target_node: 2,
        property: Property::Translation,
        interpolation: Interpolation::Linear,
        input: acc(0, 3, ComponentType::F32, Dimensions::Scalar),
        output: acc(12, 3, ComponentType::F32, Dimensions::Vec3),
    };
    assert!(matches!(get_channel(&c, &skins(), &buffer_with(3)), Err(ConvertError::InvalidJoint)));
}

#[test]
fn animations_need_names() {
    let c = ChannelDesc {
        target_node: 1,
        property: Property::Translation,
        interpolation: Interpolation::Linear,
        input: acc(0, 3, ComponentType::F32, Dimensions::Scalar),
        output: acc(12, 3, ComponentType::F32, Dimensions::Vec3),
    };
    let unnamed = AnimationDesc { name: None, channels: vec![] };
    assert!(matches!(get_animation(&unnamed, &skins(), &buffer_with(3)), Err(ConvertError::NoName)));
    let named = AnimationDesc { name: Some("walk".to_string()), channels: vec![c] };
    let all = get_animations(&vec![named], &skins(), &buffer_with(3)).unwrap();
    assert_eq!(all[0].name, "walk");
    assert_eq!(all[0].channels.len(), 1);
}
