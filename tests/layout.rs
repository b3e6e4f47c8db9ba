use gltfgen::attrib::{color_element_size, tex_coord_element_size};
use gltfgen::builder::F32_ONE_BITS;
use gltfgen::{
    group_mtls, Attribute, ComponentType, DocumentBuilder, Shape, Target, TextureAttribute, Type,
};

fn le32(v: &[u32]) -> Vec<u8> {
    v.iter().flat_map(|x| x.to_le_bytes()).collect()
}

#[test]
fn element_sizes_follow_shape_and_component() {
    assert_eq!(Type::Mat3(ComponentType::U16).element_size(), 18);
    assert_eq!(Type::F32.element_size(), 4);
    assert_eq!(Type::Scalar(ComponentType::I8).element_size(), 1);
    assert_eq!(Type::Vec4(ComponentType::U32).element_size(), 16);
    assert_eq!(Type::Mat4(ComponentType::F32).element_size(), 64);
    assert_eq!(Type::Vec2(ComponentType::I16).shape(), Shape::Vec2);
    assert_eq!(Type::U16.component_type(), ComponentType::U16);
    assert_eq!(ComponentType::F32.gl_code(), 5126);
    assert_eq!(ComponentType::I8.gl_code(), 5120);
}

#[test]
fn color_and_texcoord_types_are_checked() {
    assert_eq!(color_element_size(Type::Vec3(ComponentType::F32)), Some(12));
    assert_eq!(color_element_size(Type::Vec4(ComponentType::U8)), Some(4));
    assert_eq!(color_element_size(Type::Vec2(ComponentType::U8)), None);
    assert_eq!(color_element_size(Type::Vec3(ComponentType::I16)), None);
    assert_eq!(tex_coord_element_size(ComponentType::U16), Some(4));
    assert_eq!(tex_coord_element_size(ComponentType::I8), None);
    assert_eq!(tex_coord_element_size(ComponentType::U32), None);
}

#[test]
fn index_buffer_has_bounds_and_offsets() {
    let mut b = DocumentBuilder::new();
    let tri = vec![[0usize, 1, 2], [2, 3, 7]];
    let acc = b.push_indices(&tri, &vec![1, 0]);
    assert_eq!(acc, 0);
    assert_eq!(b.data(), &le32(&[2, 3, 7, 0, 1, 2]));
    let v = b.views()[0];
    assert_eq!((v.byte_offset, v.byte_length), (0, 24));
    assert_eq!(v.target, Some(Target::ElementArrayBuffer));
    let a = &b.accessors()[0];
    assert_eq!(a.count, 6);
    assert_eq!(a.min, Some(vec![0]));
    assert_eq!(a.max, Some(vec![7]));
    assert_eq!(a.buffer_view, Some(0));
}

#[test]
fn indices_split_by_material_group() {
    let mut b = DocumentBuilder::new();
    let tri = vec![[0usize, 1, 2], [2, 1, 3], [3, 4, 5]];
    let groups = group_mtls(&vec![4, 9, 4]);
    assert_eq!(groups.ids(), vec![4, 9]);
    let accs = b.build_indices(&tri, &Some(groups));
    assert_eq!(accs, vec![0, 1]);
    assert_eq!(b.data(), &le32(&[0, 1, 2, 3, 4, 5, 2, 1, 3]));
    assert_eq!(b.views()[1].byte_offset, 24);
    assert_eq!(b.views()[1].byte_length, 12);
    let accs = DocumentBuilder::new().build_indices(&tri, &None);
    assert_eq!(accs.len(), 1);
}

#[test]
fn attribute_values_are_written_little_endian() {
    let mut b = DocumentBuilder::new();
    b.push_image(&vec![9, 9, 9]);
    let attrib = Attribute {
        name: "pressure".to_string(),
        type_: Type::Vec2(ComponentType::I16),
        values: vec![0x0102, 0xfffe, 7, 8],
    };
    let acc = b.push_attribute(&attrib);
    assert_eq!(&b.data()[3..], &[0x02, 0x01, 0xfe, 0xff, 7, 0, 8, 0]);
    let v = b.views()[1];
    assert_eq!((v.byte_offset, v.byte_length, v.byte_stride), (3, 8, Some(4)));
    let a = &b.accessors()[acc];
    assert_eq!(a.count, 2);
    assert_eq!(a.shape, Shape::Vec2);
    assert_eq!(a.name.as_deref(), Some("pressure"));
}

#[test]
fn invalid_color_type_writes_nothing() {
    let mut b = DocumentBuilder::new();
    let attrib = Attribute {
        name: "Cd".to_string(),
        type_: Type::Vec2(ComponentType::F32),
        values: vec![1, 2],
    };
    assert_eq!(b.push_color_attribute(&attrib), None);
    assert!(b.data().is_empty());
    assert!(b.accessors().is_empty());
    let ok = Attribute { type_: Type::Vec3(ComponentType::U8), values: vec![1, 2, 3], ..attrib };
    assert_eq!(b.push_color_attribute(&ok), Some(0));
    assert_eq!(b.data(), &vec![1, 2, 3]);
}

#[test]
fn texcoords_keep_two_components() {
    let mut b = DocumentBuilder::new();
    let attrib = TextureAttribute {
        id: 1,
        name: "uv".to_string(),
        component_type: ComponentType::U16,
        width: 3,
        values: vec![1, 2, 3, 4, 5, 6],
    };
    assert_eq!(b.push_tex_attribute(&attrib), Some(0));
    assert_eq!(b.data(), &vec![1, 0, 2, 0, 4, 0, 5, 0]);
    assert_eq!(b.views()[0].byte_stride, Some(4));
    assert_eq!(b.accessors()[0].count, 2);
    assert_eq!(b.accessors()[0].shape, Shape::Vec2);
    let bad = TextureAttribute { component_type: ComponentType::I8, ..attrib };
    assert_eq!(b.push_tex_attribute(&bad), None);
}

#[test]
fn sparse_weights_select_one_target_per_frame() {
    let mut b = DocumentBuilder::new();
    let times = vec![10, 11, 12, 13];
    let anim = b.build_animation(&times, false).unwrap();
    let k = 3u32;
    let indices: Vec<u32> = (0..k).map(|i| k * (i + 1) + i).collect();
    assert_eq!(indices, vec![3, 7, 11]);
    let mut expected = le32(&indices);
    expected.extend(le32(&[F32_ONE_BITS; 3]));
    expected.extend(le32(&times));
    assert_eq!(b.data(), &expected);
    let w = &b.accessors()[anim.weights];
    assert_eq!(w.count, 12);
    let sparse = w.sparse.unwrap();
    assert_eq!(sparse.count, 3);
    // Decode: dense weights, one row of `k` per time sample.
    let mut dense = vec![0u32; 12];
    for &i in &indices {
        dense[i as usize] = 1;
    }
    for sample in 1..=3usize {
        for target in 0..3usize {
            let expect = if target == sample - 1 { 1 } else { 0 };
            assert_eq!(dense[sample * 3 + target], expect);
        }
    }
    assert!(dense[..3].iter().all(|&x| x == 0));
    let t = &b.accessors()[anim.time];
    assert_eq!(t.count, 4);
    assert_eq!(t.min, Some(vec![10]));
    assert_eq!(t.max, Some(vec![13]));
    assert_eq!(DocumentBuilder::new().build_animation(&vec![5], false).is_none(), true);
}

#[test]
fn leading_vanishing_frame_comes_first_in_time() {
    let mut b = DocumentBuilder::new();
    let anim = b.build_animation(&vec![20, 19, 21], true).unwrap();
    let mut expected = le32(&[0, 5]);
    expected.extend(le32(&[F32_ONE_BITS; 2]));
    expected.extend(le32(&[19, 20, 21]));
    assert_eq!(b.data(), &expected);
    assert_eq!(b.accessors()[anim.time].min, Some(vec![19]));
}

#[test]
fn vec3_accessor_records_bounds() {
    let mut b = DocumentBuilder::new();
    let acc = b.push_vec3(&vec![[1, 2, 3]], [1, 2, 3], [1, 2, 3], "P");
    assert_eq!(b.data(), &le32(&[1, 2, 3]));
    let a = &b.accessors()[acc];
    assert_eq!(a.min, Some(vec![1, 2, 3]));
    assert_eq!(a.name.as_deref(), Some("P"));
    let acc = b.push_vec3(&vec![], [0; 3], [0; 3], "");
    assert_eq!(b.accessors()[acc].name, None);
    assert_eq!(b.views()[1].byte_offset, 12);
}

#[test]
fn animation_views_hold_indices_weights_and_times() {
    let mut b = DocumentBuilder::new();
    b.push_image(&vec![1, 2]);
    b.build_animation(&vec![10, 11, 12], false).unwrap();
    let v = b.views();
    assert_eq!((v[1].byte_offset, v[1].byte_length), (2, 8));
    assert_eq!((v[2].byte_offset, v[2].byte_length), (10, 8));
    assert_eq!((v[3].byte_offset, v[3].byte_length), (18, 12));
    assert_eq!(&b.data()[18..], &le32(&[10, 11, 12])[..]);
}
