use wg3d::accessor::{
    decode, normalize, read_indices_u32, read_scalars_f32, read_scalars_norm, read_vec2_norm,
    read_vec3_f32, read_vec4_norm, read_vec4_u16, read_vec4_unorm, Accessor, BufferView, Buffers, ComponentType, Dimensions, IndexType, Sparse,
    Value,
};
use wg3d::ConvertError;

fn one_buffer(bytes: Vec<u8>) -> Buffers {
    let mut b = Buffers::new();
    let n = bytes.len();
    b.push_checked(n, bytes).unwrap();
    b
}

fn packed(ct: ComponentType, d: Dimensions, count: usize) -> Accessor {
    Accessor {
        view: Some(BufferView { buffer: 0, byte_offset: 0, byte_stride: None }),
        count,
        component_type: ct,
        dimensions: d,
        sparse: None,
    }
}

fn norm_to_f32(v: Value) -> f32 {
    match v {
        Value::Norm { num, den } => num as f32 / den as f32,
        Value::Float(bits) => f32::from_bits(bits),
    }
}

#[test]
fn it_works() {}

#[test]
fn round_trip_u8_vec4() {
    let elems: Vec<Vec<u32>> = vec![vec![0, 1, 128, 255], vec![7, 8, 9, 10]];
    let bytes: Vec<u8> = elems.iter().flatten().map(|&c| c as u8).collect();
    let got = decode(&packed(ComponentType::U8, Dimensions::Vec4, 2), &one_buffer(bytes)).unwrap();
    assert_eq!(got, elems);
}

#[test]
fn round_trip_i16_vec2() {
    let vals: Vec<i16> = vec![-32768, -1, 0, 32767];
    let mut bytes = Vec::new();
    for v in &vals {
        bytes.extend_from_slice(&v.to_le_bytes());
    }
    let got = decode(&packed(ComponentType::I16, Dimensions::Vec2, 2), &one_buffer(bytes)).unwrap();
    let expected: Vec<Vec<u32>> =
        vec![vec![0x8000, 0xffff], vec![0, 0x7fff]];
    assert_eq!(got, expected);
}

#[test]
fn round_trip_u32_scalar() {
    let vals: Vec<u32> = vec![0, 1, 0xdead_beef, u32::MAX];
    let mut bytes = Vec::new();
    for v in &vals {
        bytes.extend_from_slice(&v.to_le_bytes());
    }
    let acc = packed(ComponentType::U32, Dimensions::Scalar, 4);
    let got = read_indices_u32(&acc, &one_buffer(bytes)).unwrap();
    assert_eq!(got, vals);
}

#[test]
fn round_trip_f32_mat4_exact() {
    let vals: Vec<f32> = (0..32).map(|i| i as f32 * 0.25 - 3.5).collect();
    let mut bytes = Vec::new();
    for v in &vals {
        bytes.extend_from_slice(&v.to_le_bytes());
    }
    let got = decode(&packed(ComponentType::F32, Dimensions::Mat4, 2), &one_buffer(bytes)).unwrap();
    assert_eq!(got.len(), 2);
    for (i, e) in got.iter().enumerate() {
        assert_eq!(e.len(), 16);
        for (k, c) in e.iter().enumerate() {
            assert_eq!(f32::from_bits(*c), vals[i * 16 + k]);
        }
    }
}

#[test]
fn round_trip_i8_vec3_and_u16_scalar() {
    let bytes: Vec<u8> = vec![0x80, 0x7f, 0xff];
    let got = decode(&packed(ComponentType::I8, Dimensions::Vec3, 1), &one_buffer(bytes)).unwrap();
    assert_eq!(got, vec![vec![0x80, 0x7f, 0xff]]);
    let bytes: Vec<u8> = vec![0x34, 0x12, 0xff, 0xff];
    let got = decode(&packed(ComponentType::U16, Dimensions::Scalar, 2), &one_buffer(bytes)).unwrap();
    assert_eq!(got, vec![vec![0x1234], vec![0xffff]]);
}

#[test]
fn stride_skips_interleaved_bytes() {
    // Three vec3 positions, 16 bytes apart, with four junk bytes after each.
    let positions = [[1.0f32, 2.0, 3.0], [4.0, 5.0, 6.0], [-7.0, 8.5, 0.0]];
    let mut bytes = vec![0xaa, 0xbb];
    for p in &positions {
        for c in p {
            bytes.extend_from_slice(&c.to_le_bytes());
        }
        bytes.extend_from_slice(&[0xde, 0xad, 0xbe, 0xef]);
    }
    let acc = Accessor {
        view: Some(BufferView { buffer: 0, byte_offset: 2, byte_stride: Some(16) }),
        count: 3,
        component_type: ComponentType::F32,
        dimensions: Dimensions::Vec3,
        sparse: None,
    };
    let got = read_vec3_f32(&acc, &one_buffer(bytes)).unwrap();
    assert_eq!(got.len(), 3);
    for (g, p) in got.iter().zip(positions.iter()) {
        for k in 0..3 {
            assert_eq!(f32::from_bits(g[k]), p[k]);
        }
    }
}

#[test]
fn stride_smaller_than_element_is_rejected() {
    let acc = Accessor {
        view: Some(BufferView { buffer: 0, byte_offset: 0, byte_stride: Some(8) }),
        count: 2,
        component_type: ComponentType::F32,
        dimensions: Dimensions::Vec3,
        sparse: None,
    };
    assert_eq!(decode(&acc, &one_buffer(vec![0; 64])), Err(ConvertError::Other));
}

#[test]
fn normalization_bounds() {
    assert_eq!(normalize(ComponentType::U8, 255), Value::Norm { num: 255, den: 255 });
    assert_eq!(norm_to_f32(normalize(ComponentType::U8, 255)), 1.0);
    assert_eq!(norm_to_f32(normalize(ComponentType::U8, 0)), 0.0);
    assert_eq!(norm_to_f32(normalize(ComponentType::U16, 65535)), 1.0);
    // -32767 as raw 16-bit pattern.
    assert_eq!(normalize(ComponentType::I16, 0x8001), Value::Norm { num: -32767, den: 32767 });
    assert_eq!(norm_to_f32(normalize(ComponentType::I16, 0x8001)), -1.0);
    assert_eq!(norm_to_f32(normalize(ComponentType::I16, 0x7fff)), 1.0);
    // -32768 lies outside [-1, 1].
    assert_eq!(normalize(ComponentType::I16, 0x8000), Value::Norm { num: -32768, den: 32767 });
    assert!(norm_to_f32(normalize(ComponentType::I16, 0x8000)) < -1.0);
    assert_eq!(normalize(ComponentType::F32, 0x3f80_0000), Value::Float(0x3f80_0000));
}

#[test]
fn normalized_texcoords_from_u8() {
    let acc = packed(ComponentType::U8, Dimensions::Vec2, 2);
    let got = read_vec2_norm(&acc, &one_buffer(vec![0, 255, 51, 102])).unwrap();
    assert_eq!(norm_to_f32(got[0][0]), 0.0);
    assert_eq!(norm_to_f32(got[0][1]), 1.0);
    assert_eq!(got[1][0], Value::Norm { num: 51, den: 255 });
    assert_eq!(got[1][1], Value::Norm { num: 102, den: 255 });
}

#[test]
fn joint_indices_are_not_normalized() {
    let acc = packed(ComponentType::U8, Dimensions::Vec4, 1);
    assert_eq!(read_vec4_u16(&acc, &one_buffer(vec![3, 0, 255, 1])).unwrap(), vec![[3, 0, 255, 1]]);
    let acc = packed(ComponentType::U16, Dimensions::Vec4, 1);
    let bytes = vec![0x01, 0x01, 0, 0, 0xff, 0xff, 2, 0];
    assert_eq!(read_vec4_u16(&acc, &one_buffer(bytes)).unwrap(), vec![[257, 0, 65535, 2]]);
}

#[test]
fn sparse_overrides_zero_base() {
    // Indices (u8) at offset 0, values (vec3 u16) at offset 2.
    let mut bytes = vec![1u8, 3];
    for v in [10u16, 11, 12, 20, 21, 22] {
        bytes.extend_from_slice(&v.to_le_bytes());
    }
    let acc = Accessor {
        view: None,
        count: 4,
        component_type: ComponentType::U16,
        dimensions: Dimensions::Vec3,
        sparse: Some(Sparse {
            count: 2,
            index_type: IndexType::U8,
            indices: BufferView { buffer: 0, byte_offset: 0, byte_stride: None },
            values: BufferView { buffer: 0, byte_offset: 2, byte_stride: None },
        }),
    };
    let got = decode(&acc, &one_buffer(bytes)).unwrap();
    assert_eq!(
        got,
        vec![vec![0, 0, 0], vec![10, 11, 12], vec![0, 0, 0], vec![20, 21, 22]]
    );
}

#[test]
fn sparse_overrides_dense_base_later_wins() {
    // Base: four u8 scalars; sparse: index 2 twice, with values 7 then 9.
    let bytes = vec![1u8, 2, 3, 4, 2, 2, 7, 9];
    let acc = Accessor {
        view: Some(BufferView { buffer: 0, byte_offset: 0, byte_stride: None }),
        count: 4,
        component_type: ComponentType::U8,
        dimensions: Dimensions::Scalar,
        sparse: Some(Sparse {
            count: 2,
            index_type: IndexType::U8,
            indices: BufferView { buffer: 0, byte_offset: 4, byte_stride: None },
            values: BufferView { buffer: 0, byte_offset: 6, byte_stride: None },
        }),
    };
    let got = decode(&acc, &one_buffer(bytes)).unwrap();
    assert_eq!(got, vec![vec![1], vec![2], vec![9], vec![4]]);
}

#[test]
fn sparse_index_out_of_range() {
    let bytes = vec![5u8, 0, 0];
    let acc = Accessor {
        view: None,
        count: 4,
        component_type: ComponentType::U8,
        dimensions: Dimensions::Scalar,
        sparse: Some(Sparse {
            count: 1,
            index_type: IndexType::U8,
            indices: BufferView { buffer: 0, byte_offset: 0, byte_stride: None },
            values: BufferView { buffer: 0, byte_offset: 1, byte_stride: None },
        }),
    };
    assert_eq!(decode(&acc, &one_buffer(bytes)), Err(ConvertError::Other));
}

#[test]
fn missing_or_short_buffer() {
    let acc = Accessor {
        view: Some(BufferView { buffer: 1, byte_offset: 0, byte_stride: None }),
        count: 1,
        component_type: ComponentType::U8,
        dimensions: Dimensions::Scalar,
        sparse: None,
    };
    assert_eq!(decode(&acc, &one_buffer(vec![1])), Err(ConvertError::MissingBuffer));
    let acc = packed(ComponentType::F32, Dimensions::Vec3, 2);
    assert_eq!(decode(&acc, &one_buffer(vec![0; 23])), Err(ConvertError::MissingBuffer));
    assert!(decode(&acc, &one_buffer(vec![0; 24])).is_ok());
}

#[test]
fn unsupported_type_and_shape() {
    let acc = packed(ComponentType::U16, Dimensions::Scalar, 1);
    let bufs = one_buffer(vec![0; 16]);
    assert_eq!(read_scalars_f32(&acc, &bufs), Err(ConvertError::UnsupportedDataType));
    let acc = packed(ComponentType::F32, Dimensions::Vec2, 1);
    assert_eq!(read_scalars_f32(&acc, &bufs), Err(ConvertError::UnsupportedDimensions));
    let acc = packed(ComponentType::U32, Dimensions::Vec2, 1);
    assert_eq!(read_vec2_norm(&acc, &bufs), Err(ConvertError::UnsupportedDataType));
    let acc = packed(ComponentType::F32, Dimensions::Vec4, 1);
    assert_eq!(read_vec4_u16(&acc, &bufs), Err(ConvertError::UnsupportedDataType));
    // Signed 8-bit rotations and weights, and signed texture coordinates, are refused.
    let acc = packed(ComponentType::I8, Dimensions::Vec4, 1);
    assert_eq!(read_vec4_norm(&acc, &bufs), Err(ConvertError::UnsupportedDataType));
    let acc = packed(ComponentType::I8, Dimensions::Scalar, 1);
    assert_eq!(read_scalars_norm(&acc, &bufs), Err(ConvertError::UnsupportedDataType));
    let acc = packed(ComponentType::I16, Dimensions::Vec2, 1);
    assert_eq!(read_vec2_norm(&acc, &bufs), Err(ConvertError::UnsupportedDataType));
    let acc = packed(ComponentType::I16, Dimensions::Vec4, 1);
    assert_eq!(read_vec4_unorm(&acc, &bufs), Err(ConvertError::UnsupportedDataType));
    assert!(read_vec4_norm(&acc, &bufs).is_ok());
}

#[test]
fn round_trip_at_offset_inside_longer_buffer() {
    let vals: Vec<u16> = vec![1, 2, 3, 0xfffe, 0x8000, 7];
    let mut bytes = vec![0xee; 5];
    for v in &vals {
        bytes.extend_from_slice(&v.to_le_bytes());
    }
    bytes.extend_from_slice(&[0xcc; 9]);
    let acc = Accessor {
        view: Some(BufferView { buffer: 0, byte_offset: 5, byte_stride: None }),
        count: 2,
        component_type: ComponentType::U16,
        dimensions: Dimensions::Vec3,
        sparse: None,
    };
    let got = decode(&acc, &one_buffer(bytes)).unwrap();
    assert_eq!(got, vec![vec![1, 2, 3], vec![0xfffe, 0x8000, 7]]);
}

#[test]
fn error_descriptions() {
    assert_eq!(ConvertError::TooManyJoints.description(), "Too many joints");
    assert_eq!(ConvertError::NoName.description(), "No name for a mesh, skin, or animation");
    assert_eq!(ConvertError::Other.description(), "Something weird happened");
}

#[test]
fn declared_buffer_length_is_checked() {
    let mut b = Buffers::new();
    assert_eq!(b.push_checked(4, vec![1, 2, 3]), Err(ConvertError::InvalidBufferLength));
    assert_eq!(b.data.len(), 0);
    assert_eq!(b.push_checked(3, vec![1, 2, 3]), Ok(()));
    assert_eq!(b.data, vec![vec![1, 2, 3]]);
}
