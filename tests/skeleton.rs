use wg3d::accessor::{Accessor, BufferView, Buffers, ComponentType, Dimensions};
use wg3d::scene::Node;
use wg3d::skin::{get as get_skins, get_skin, SkinDesc};
use wg3d::ConvertError;

const ONE: u32 = 0x3f80_0000;

fn node(name: &str, children: Vec<usize>) -> Node {
    Node { name: Some(name.to_string()), children, transform: [0; 16], mesh: None, skin: None }
}

fn identity() -> [u32; 16] {
    [ONE, 0, 0, 0, 0, ONE, 0, 0, 0, 0, ONE, 0, 0, 0, 0, ONE]
}

fn chain_nodes() -> Vec<Node> {
    // root -> A -> B -> C
    vec![
        node("root", vec![1]),
        node("A", vec![2]),
        node("B", vec![3]),
        node("C", vec![]),
    ]
}

#[test]
fn chain_parents_and_joint_indices() {
    let nodes = chain_nodes();
    let desc = SkinDesc {
        name: Some("skin".to_string()),
        joints: vec![0, 1, 2, 3],
        skeleton: Some(0),
        inverse_bind_matrices: None,
    };
    let skin = get_skin(&desc, &nodes, &Buffers::new()).unwrap();
    assert_eq!(skin.name, "skin");
    assert_eq!(skin.root_index, 0);
    for k in 0..4usize {
        assert_eq!(skin.get_joint_index(k), Some(k as u16));
        assert_eq!(skin.get_node_index(k as u16), Some(k));
        assert_eq!(skin.joints[k].inverse_bind_matrix, identity());
    }
    assert_eq!(skin.get_joint_index(4), None);
    assert_eq!(skin.joints[0].parent, None);
    assert_eq!(skin.joints[1].parent, Some(0));
    assert_eq!(skin.joints[2].parent, Some(1));
    assert_eq!(skin.joints[3].parent, Some(2));
    assert_eq!(skin.joints[2].name, "B");
}

#[test]
fn joint_order_differs_from_node_order() {
    // Nodes: 0 scene root (no joint), 1 C, 2 A, 3 B, 4 root; chain 4 -> 2 -> 3 -> 1.
    let nodes = vec![
        node("scene", vec![4]),
        node("C", vec![]),
        node("A", vec![3]),
        node("B", vec![1]),
        node("root", vec![2]),
    ];
    let desc = SkinDesc {
        name: Some("s".to_string()),
        joints: vec![1, 2, 3, 4],
        skeleton: Some(4),
        inverse_bind_matrices: None,
    };
    let skin = get_skin(&desc, &nodes, &Buffers::new()).unwrap();
    assert_eq!(skin.root_index, 3);
    assert_eq!(skin.get_joint_index(4), Some(3));
    assert_eq!(skin.get_joint_index(0), None);
    // C's parent is B (joint 2), A's is root (joint 3), B's is A (joint 1).
    assert_eq!(skin.joints[0].parent, Some(2));
    assert_eq!(skin.joints[1].parent, Some(3));
    assert_eq!(skin.joints[2].parent, Some(1));
    // The root's scene-graph parent is no joint.
    assert_eq!(skin.joints[3].parent, None);
    assert_eq!(skin.joints[3].old_index, 4);
}

#[test]
fn inverse_bind_matrices_from_accessor() {
    let nodes = chain_nodes();
    let mut bytes = Vec::new();
    for j in 0..4u32 {
        for k in 0..16u32 {
            bytes.extend_from_slice(&((j * 16 + k) as f32).to_le_bytes());
        }
    }
    let mut bufs = Buffers::new();
    bufs.push_checked(bytes.len(), bytes).unwrap();
    let acc = Accessor {
        view: Some(BufferView { buffer: 0, byte_offset: 0, byte_stride: None }),
        count: 4,
        component_type: ComponentType::F32,
        dimensions: Dimensions::Mat4,
        sparse: None,
    };
    let mut desc = SkinDesc {
        name: Some("skin".to_string()),
        joints: vec![0, 1, 2, 3],
        skeleton: Some(0),
        inverse_bind_matrices: Some(acc),
    };
    let skin = get_skin(&desc, &nodes, &bufs).unwrap();
    assert_eq!(f32::from_bits(skin.joints[2].inverse_bind_matrix[5]), 37.0);
    // More matrices than joints: a mismatch, never truncated.
    desc.joints = vec![0, 1, 2];
    assert!(matches!(get_skin(&desc, &nodes, &bufs), Err(ConvertError::Other)));
}

fn flat_nodes(n: usize) -> Vec<Node> {
    (0..n).map(|i| node(&format!("j{}", i), vec![])).collect()
}

#[test]
fn joint_overflow() {
    let nodes = flat_nodes(65536);
    let desc = SkinDesc {
        name: Some("big".to_string()),
        joints: (0..65536).collect(),
        skeleton: Some(0),
        inverse_bind_matrices: None,
    };
    assert!(matches!(get_skin(&desc, &nodes, &Buffers::new()), Err(ConvertError::TooManyJoints)));
    let desc = SkinDesc {
        name: Some("big".to_string()),
        joints: (0..65535).collect(),
        skeleton: Some(0),
        inverse_bind_matrices: None,
    };
    let skin = get_skin(&desc, &nodes, &Buffers::new()).unwrap();
    assert_eq!(skin.joints.len(), 65535);
    assert_eq!(skin.get_joint_index(65534), Some(65534));
}

#[test]
fn skeleton_errors() {
    let nodes = chain_nodes();
    let base = || SkinDesc {
        name: Some("skin".to_string()),
        joints: vec![0, 1, 2, 3],
        skeleton: Some(0),
        inverse_bind_matrices: None,
    };
    let mut d = base();
    d.name = None;
    assert!(matches!(get_skin(&d, &nodes, &Buffers::new()), Err(ConvertError::NoName)));
    let mut d = base();
    d.skeleton = None;
    assert!(matches!(get_skin(&d, &nodes, &Buffers::new()), Err(ConvertError::NoSkeleton)));
    let mut d = base();
    d.joints = vec![1, 2, 3];
    assert!(matches!(get_skin(&d, &nodes, &Buffers::new()), Err(ConvertError::NoSkeleton)));
    let mut d = base();
    d.joints = vec![0, 1, 9];
    assert!(matches!(get_skin(&d, &nodes, &Buffers::new()), Err(ConvertError::Other)));
    let mut unnamed = chain_nodes();
    unnamed[2].name = None;
    assert!(matches!(get_skin(&base(), &unnamed, &Buffers::new()), Err(ConvertError::NoName)));
    let skins = get_skins(&vec![base(), base()], &nodes, &Buffers::new()).unwrap();
    assert_eq!(skins.len(), 2);
}
