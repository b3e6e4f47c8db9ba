use gltfgen::attrib::AttribTransfer;
use gltfgen::discover::{glob_to_regex, glob_to_regex_pattern};
use gltfgen::export::build_gltf_parts;
use gltfgen::output::{glb_length, image_mime_type};
use gltfgen::primitives::{build_attributes, build_primitives, AttributeAccessors, Mode, Semantic};
use gltfgen::utils::{format_message, printed_lines, str_eq, usize_to_decimal, MessageType};
use gltfgen::{MagFilter, MinFilter, WrappingMode};
use gltfgen::{
    align_to_multiple_of_four, group_mtls, into_nodes, material_ids_from, process_auto_textures,
    push_message, remove_braces, to_padded_byte_vector, Attribute, ComponentType, DocumentBuilder,
    Frame, ImageInfo, LocalMaterial, MaterialGroups, MaterialIds, MaterialRegistry, MorphPlan,
    MorphSource, Node, Output, TextureInfo, TextureRef, Topology, Type, Vec3Data,
};

fn quad() -> Topology {
    Topology::Triangles { num_vertices: 4, indices: vec![[0, 1, 2], [0, 2, 3]] }
}

fn frame(name: &str, frame: u32, topology: Topology) -> Frame {
    Frame { name: name.to_string(), frame, topology, material_ids: None }
}

fn bits(v: [f32; 3]) -> [u32; 3] {
    [v[0].to_bits(), v[1].to_bits(), v[2].to_bits()]
}

fn faces_of(g: &MaterialGroups) -> Vec<Vec<usize>> {
    (0..g.num_groups()).map(|k| g.faces(k).clone()).collect()
}

fn empty_transfer() -> AttribTransfer {
    AttribTransfer {
        attribs_to_keep: vec![],
        color_attribs_to_keep: vec![],
        tex_attribs_to_keep: vec![],
        material_ids: None,
        normal_attrib: Vec3Data::empty(),
        tangent_attrib: Vec3Data::empty(),
    }
}

#[test]
fn single_topology_run_gives_one_node() {
    let frames: Vec<Frame> = (1..=5).map(|f| frame("box", f, quad())).collect();
    let nodes = into_nodes(&frames, false);
    assert_eq!(nodes.len(), 1);
    assert_eq!(nodes[0].base, 0);
    assert_eq!(nodes[0].first_frame, 1);
    let expected: Vec<MorphPlan> = (1..5)
        .map(|i| MorphPlan { frame: i as u32 + 1, source: MorphSource::Frame(i) })
        .collect();
    assert_eq!(nodes[0].morphs, expected);
}

#[test]
fn topology_name_and_material_changes_split_nodes() {
    let tri = Topology::Triangles { num_vertices: 3, indices: vec![[0, 1, 2]] };
    let mut frames = vec![
        frame("a", 1, quad()),
        frame("a", 2, quad()),
        frame("a", 3, tri),
        frame("b", 4, quad()),
        frame("b", 5, quad()),
    ];
    frames[4].material_ids = Some(group_mtls(&vec![0, 0]));
    let nodes = into_nodes(&frames, false);
    let bases: Vec<usize> = nodes.iter().map(|n| n.base).collect();
    assert_eq!(bases, vec![0, 2, 3, 4]);
    assert_eq!(nodes[0].morphs.len(), 1);
    assert!(nodes[1].morphs.is_empty());
    let points = frame("p", 0, Topology::Points { num_vertices: 3 });
    let more = frame("p", 1, Topology::Points { num_vertices: 4 });
    assert_eq!(into_nodes(&vec![points, more], false).len(), 2);
}

#[test]
fn vanishing_frames_surround_nodes() {
    let tri = Topology::Triangles { num_vertices: 3, indices: vec![[0, 1, 2]] };
    let frames = vec![frame("a", 3, quad()), frame("a", 4, quad()), frame("a", 5, tri)];
    let nodes = into_nodes(&frames, true);
    assert_eq!(nodes.len(), 2);
    assert_eq!(
        nodes[0].morphs,
        vec![
            MorphPlan { frame: 2, source: MorphSource::Vanish },
            MorphPlan { frame: 4, source: MorphSource::Frame(1) },
            MorphPlan { frame: 5, source: MorphSource::Vanish },
        ]
    );
    assert_eq!(nodes[1].morphs, vec![MorphPlan { frame: 4, source: MorphSource::Vanish }]);
}

#[test]
fn empty_input_gives_no_nodes() {
    assert!(into_nodes(&vec![], false).is_empty());
}

#[test]
fn material_ids_group_and_partition_faces() {
    let g = group_mtls(&vec![0, 1, 0, 2, 1]);
    assert_eq!(g.ids(), vec![0, 1, 2]);
    assert_eq!(faces_of(&g), vec![vec![0, 2], vec![1, 4], vec![3]]);
    let mut all: Vec<usize> = faces_of(&g).concat();
    all.sort();
    assert_eq!(all, vec![0, 1, 2, 3, 4]);
    assert_eq!(group_mtls(&vec![]).num_groups(), 0);
}

#[test]
fn no_material_attribute_gives_no_material() {
    assert!(material_ids_from(None, None).is_none());
    assert!(material_ids_from(None, Some((vec![], vec![]))).is_none());
    match material_ids_from(Some(vec![3, 3]), None) {
        Some(MaterialIds::Global { map }) => assert_eq!(map.ids(), vec![3]),
        _ => panic!("expected global ids"),
    }
    let attrs = AttributeAccessors {
        position: 0,
        normal: None,
        tangent: None,
        colors: vec![],
        tex_coords: vec![],
        custom: vec![],
    };
    let mut msgs = Vec::new();
    let prims = build_primitives(&attrs, Some(vec![1]), &None, None, 0, &mut msgs);
    assert_eq!(prims.len(), 1);
    assert_eq!(prims[0].material, None);
    assert!(msgs.is_empty());
}

fn local(name: &str, texture: Option<&str>) -> LocalMaterial {
    LocalMaterial {
        name: name.to_string(),
        texture: texture.map(|t| t.to_string()),
        properties: vec![1, 2],
    }
}

#[test]
fn local_materials_are_registered_once() {
    let mut reg = MaterialRegistry::new(2, vec![]);
    let ids = MaterialIds::Local {
        ids: vec![0, 1, 0, 2],
        materials: vec![local("red", None), local("tex", Some("a.png")), local("red", None)],
    };
    let groups = reg.promote(Some(ids), true).unwrap();
    assert_eq!(groups.ids(), vec![2, 3]);
    assert_eq!(faces_of(&groups), vec![vec![0, 2, 3], vec![1]]);
    assert_eq!(reg.local.len(), 2);
    assert_eq!(reg.local_textures, vec![TextureRef::Unset, TextureRef::Texture { index: 0, texcoord: 0 }]);
    assert!(matches!(&reg.textures[0].image, ImageInfo::Auto(p) if p == "a.png"));
    assert_eq!(reg.register(&local("tex", Some("a.png")), false), 3);
    assert_eq!(reg.textures.len(), 1);
    assert_eq!(TextureRef::Texture { index: 1, texcoord: 2 }.into_option(), Some((1, 2)));
}

#[test]
fn primitives_follow_material_groups() {
    let attrs = AttributeAccessors {
        position: 0,
        normal: None,
        tangent: None,
        colors: vec![None, Some(4)],
        tex_coords: vec![(1, Some(5))],
        custom: vec![("temperatureKelvin".to_string(), 6)],
    };
    let attributes = build_attributes(&attrs);
    assert_eq!(attributes.len(), 4);
    assert!(matches!(attributes[1], (Semantic::Colors(0), 4)));
    assert!(matches!(attributes[2], (Semantic::TexCoords(1), 5)));
    match &attributes[3] {
        (Semantic::Extras(n), 6) => assert_eq!(n, "TEMPERATURE_KELVIN"),
        _ => panic!("expected a custom attribute"),
    }
    let groups = group_mtls(&vec![0, 7, 8]);
    let mut msgs = Vec::new();
    let prims = build_primitives(&attrs, Some(vec![1, 2, 3]), &Some(groups), None, 1, &mut msgs);
    let mats: Vec<Option<u32>> = prims.iter().map(|p| p.material).collect();
    assert_eq!(mats, vec![Some(0), None, None]);
    assert_eq!(prims[2].indices, Some(3));
    assert_eq!(prims[0].mode, Mode::Triangles);
    assert_eq!(msgs, vec![(2, "Material ID was found but no materials were specified.".to_string())]);
    let points = build_primitives(&attrs, None, &None, None, 3, &mut msgs);
    assert_eq!(points[0].mode, Mode::Points);
    assert_eq!(points[0].material, None);
}

#[test]
fn two_frame_box_becomes_one_animated_node() {
    let p: Vec<[f32; 3]> = vec![[0.0, 0.0, 0.0], [1.0, 0.0, 0.0], [1.0, 1.0, 0.0], [0.0, 1.0, 0.0]];
    let q: Vec<[f32; 3]> = p.iter().map(|v| [v[0] + 1.0, v[1], v[2]]).collect();
    let frames = vec![frame("box", 1, quad()), frame("box", 2, quad())];
    let plans = into_nodes(&frames, false);
    assert_eq!(plans.len(), 1);
    assert_eq!(plans[0].morphs, vec![MorphPlan { frame: 2, source: MorphSource::Frame(1) }]);
    let disp: Vec<[f32; 3]> =
        q.iter().zip(p.iter()).map(|(a, b)| [a[0] - b[0], a[1] - b[1], a[2] - b[2]]).collect();
    assert_eq!(disp, vec![[1.0, 0.0, 0.0]; 4]);
    let dt = 1.0f32 / 24.0;
    let node = Node {
        name: "box".to_string(),
        first_frame: 1,
        first_time: (1.0 * dt).to_bits(),
        topology: quad(),
        positions: Vec3Data {
            values: p.iter().map(|&v| bits(v)).collect(),
            min: bits([0.0; 3]),
            max: bits([1.0, 1.0, 0.0]),
        },
        attrib_transfer: empty_transfer(),
        morphs: vec![gltfgen::Morph::new(
            2,
            (2.0 * dt).to_bits(),
            Vec3Data {
                values: disp.iter().map(|&v| bits(v)).collect(),
                min: bits([1.0, 0.0, 0.0]),
                max: bits([1.0, 0.0, 0.0]),
            },
        )],
    };
    let mut b = DocumentBuilder::new();
    let (mut msgs, mut warnings) = (Vec::new(), Vec::new());
    let parts = build_gltf_parts(&mut b, &vec![node], 0, false, &mut msgs, &mut warnings);
    assert_eq!(parts.channels.len(), 1);
    assert_eq!(parts.samplers.len(), 1);
    let time = &b.accessors()[parts.samplers[0].input];
    assert_eq!(time.count, 2);
    assert_eq!(time.min, Some(vec![dt.to_bits()]));
    assert_eq!(time.max, Some(vec![(2.0 * dt).to_bits()]));
    let targets = parts.meshes[0][0].targets.clone().unwrap();
    assert_eq!(targets.len(), 1);
    let dp = &b.accessors()[targets[0].positions.unwrap()];
    assert_eq!(dp.min, Some(bits([1.0, 0.0, 0.0]).to_vec()));
    assert_eq!(dp.max, dp.min);
    assert!(!parts.add_default_material);
}

#[test]
fn colors_without_materials_add_default_material() {
    let mut t = empty_transfer();
    t.color_attribs_to_keep.push(Attribute {
        name: "Cd".to_string(),
        type_: Type::Vec3(ComponentType::U8),
        values: vec![1, 2, 3],
    });
    let node = Node {
        name: "pts".to_string(),
        first_frame: 0,
        first_time: 0,
        topology: Topology::Points { num_vertices: 1 },
        positions: Vec3Data { values: vec![[0; 3]], min: [0; 3], max: [0; 3] },
        attrib_transfer: t,
        morphs: vec![],
    };
    let mut b = DocumentBuilder::new();
    let (mut msgs, mut warnings) = (Vec::new(), Vec::new());
    let parts = build_gltf_parts(&mut b, &vec![node], 0, false, &mut msgs, &mut warnings);
    assert!(parts.add_default_material);
    assert_eq!(msgs.len(), 1);
    assert!(msgs[0].1.contains("default material"));
    assert_eq!(parts.meshes[0][0].material, None);
    assert_eq!(parts.attributes[0].colors, vec![Some(1)]);
    assert!(parts.channels.is_empty());
    assert_eq!(parts.meshes[0][0].mode, Mode::Points);
}

#[test]
fn invalid_color_type_is_reported() {
    let mut t = empty_transfer();
    t.color_attribs_to_keep.push(Attribute {
        name: "Cd".to_string(),
        type_: Type::Vec2(ComponentType::I8),
        values: vec![1, 2],
    });
    let node = Node {
        name: "pts".to_string(),
        first_frame: 0,
        first_time: 0,
        topology: Topology::Points { num_vertices: 1 },
        positions: Vec3Data { values: vec![[0; 3]], min: [0; 3], max: [0; 3] },
        attrib_transfer: t,
        morphs: vec![],
    };
    let mut b = DocumentBuilder::new();
    let (mut msgs, mut warnings) = (Vec::new(), Vec::new());
    build_gltf_parts(&mut b, &vec![node], 1, false, &mut msgs, &mut warnings);
    assert_eq!(
        warnings,
        vec![(1, "Invalid color attribute type detected: Vec2(I8). Skipping...".to_string())]
    );
}

#[test]
fn output_kind_follows_extension() {
    match Output::from_ext("out/anim.gltf".to_string()) {
        Output::Standard { binary_path, gltf_path } => {
            assert_eq!(binary_path, "out/anim.bin");
            assert_eq!(gltf_path, "out/anim.gltf");
        }
        _ => panic!("expected a standard output"),
    }
    match Output::from_ext("anim".to_string()) {
        Output::Standard { binary_path, gltf_path } => {
            assert_eq!(binary_path, "anim.bin");
            assert_eq!(gltf_path, "anim");
        }
        _ => panic!("expected a standard output"),
    }
    assert!(matches!(Output::from_ext("a.glb".to_string()), Output::Binary { glb_path } if glb_path == "a.glb"));
}

#[test]
fn auto_images_follow_output_kind() {
    let mut textures = vec![
        TextureInfo::with_image(ImageInfo::Auto("a.png".to_string())),
        TextureInfo::with_image(ImageInfo::Uri("b.png".to_string())),
    ];
    let binary = Output::Binary { glb_path: "x.glb".to_string() };
    process_auto_textures(&mut textures, &binary);
    assert!(matches!(&textures[0].image, ImageInfo::Embed(p) if p == "a.png"));
    assert!(matches!(&textures[1].image, ImageInfo::Uri(p) if p == "b.png"));
    let mut textures = vec![TextureInfo::with_image(ImageInfo::Auto("c.jpg".to_string()))];
    let standard = Output::Standard { binary_path: "x.bin".to_string(), gltf_path: "x.gltf".to_string() };
    process_auto_textures(&mut textures, &standard);
    assert!(matches!(&textures[0].image, ImageInfo::Uri(p) if p == "c.jpg"));
}

#[test]
fn image_types_by_extension() {
    assert_eq!(image_mime_type("tex/Checker.PNG").as_deref(), Some("image/png"));
    assert_eq!(image_mime_type("a.jpeg").as_deref(), Some("image/jpeg"));
    assert_eq!(image_mime_type("a.JPG").as_deref(), Some("image/jpeg"));
    assert_eq!(image_mime_type("a.bmp"), None);
    assert_eq!(image_mime_type("noext"), None);
}

#[test]
fn binary_container_padding() {
    assert_eq!(align_to_multiple_of_four(0), 0);
    assert_eq!(align_to_multiple_of_four(5), 8);
    assert_eq!(align_to_multiple_of_four(8), 8);
    assert_eq!(to_padded_byte_vector(vec![1, 2, 3, 4, 5]), vec![1, 2, 3, 4, 5, 0, 0, 0]);
    assert_eq!(to_padded_byte_vector(vec![1, 2, 3, 4]), vec![1, 2, 3, 4]);
    assert_eq!(glb_length(10, 3), 16);
}

#[test]
fn braces_are_removed_unless_escaped() {
    assert_eq!(remove_braces("{box_rotate}_#.vtk"), "box_rotate_#.vtk");
    assert_eq!(remove_braces("a\\{b\\}c"), "a{b}c");
    assert_eq!(remove_braces(""), "");
}

#[test]
fn repeated_messages_are_counted() {
    let mut msgs = Vec::new();
    push_message(&mut msgs, "a".to_string());
    push_message(&mut msgs, "a".to_string());
    push_message(&mut msgs, "b".to_string());
    assert_eq!(msgs, vec![(2, "a".to_string()), (1, "b".to_string())]);
    assert_eq!(format_message(12, "warn"), "(12) warn");
    assert_eq!(format_message(1, "warn"), "warn");
    assert!(str_eq("abc", "abc"));
    assert!(!str_eq("abc", "abd"));
    gltfgen::print_info(msgs);
}

#[test]
fn filters_and_wrapping_have_gl_codes() {
    assert_eq!(MagFilter::Nearest.gl_code(), Some(9728));
    assert_eq!(MagFilter::Unset.gl_code(), None);
    assert_eq!(MinFilter::LinearMipmapLinear.gl_code(), Some(9987));
    assert_eq!(WrappingMode::MirroredRepeat.gl_code(), 33648);
    assert_eq!(WrappingMode::default(), WrappingMode::Repeat);
    let t = TextureInfo::default();
    assert_eq!(t.mag_filter, MagFilter::Unset);
    assert!(matches!(t.image, ImageInfo::Auto(ref p) if p.is_empty()));
}

#[test]
fn default_configuration_values() {
    assert_eq!(gltfgen::config::default_fps(), 24);
    assert_eq!(gltfgen::config::default_step(), 1);
    assert_eq!(gltfgen::config::default_mtl_id(), "mtl_id");
}

#[test]
fn frame_patterns_become_regular_expressions() {
    assert_eq!(
        glob_to_regex_pattern("assets/{box_rotate}_#.vtk"),
        "^assets/(box_rotate)_(?P<frame>[0-9]+)\\.vtk$"
    );
    assert_eq!(glob_to_regex_pattern("a?/*.obj"), "^a./[^/]*\\.obj$");
    assert_eq!(glob_to_regex_pattern("**/x"), "^?:[^/]*?:/|$*x$");
    assert_eq!(glob_to_regex_pattern(""), "^$");
    let re = glob_to_regex("{tet}_#.vtk").unwrap();
    let caps = re.captures("tet_12.vtk").unwrap();
    assert_eq!(&caps["frame"], "12");
    assert_eq!(caps.get(1).unwrap().as_str(), "tet");
    assert!(re.captures("box_12.vtk").is_none());
}

#[test]
fn normals_and_tangents_get_their_own_accessors() {
    let mut t = empty_transfer();
    t.normal_attrib = Vec3Data { values: vec![bits([0.0, 0.0, 1.0])], min: bits([0.0, 0.0, 1.0]), max: bits([0.0, 0.0, 1.0]) };
    let node = Node {
        name: "pts".to_string(),
        first_frame: 0,
        first_time: 0,
        topology: Topology::Points { num_vertices: 1 },
        positions: Vec3Data { values: vec![[0; 3]], min: [0; 3], max: [0; 3] },
        attrib_transfer: t,
        morphs: vec![],
    };
    let mut b = DocumentBuilder::new();
    let (mut msgs, mut warnings) = (Vec::new(), Vec::new());
    let parts = build_gltf_parts(&mut b, &vec![node], 0, false, &mut msgs, &mut warnings);
    let a = &parts.attributes[0];
    assert_eq!(a.normal, Some(1));
    assert_eq!(a.tangent, None);
    assert_eq!(b.accessors()[1].name.as_deref(), Some("N"));
    assert!(matches!(parts.meshes[0][0].attributes[1], (Semantic::Normals, 1)));
    // Each view covers exactly the bytes written for it, one after another.
    let views = b.views();
    assert_eq!(views[0].byte_offset, 0);
    assert_eq!(views[1].byte_offset, views[0].byte_length);
    assert_eq!(views[1].byte_offset + views[1].byte_length, b.data().len());
}

#[test]
fn messages_print_by_level() {
    let msgs = vec![(3, "x".to_string()), (1, "y".to_string())];
    assert_eq!(printed_lines(&msgs, MessageType::Warn, 2), vec!["WARNING: (3) x", "WARNING: y"]);
    assert!(printed_lines(&msgs, MessageType::Info, 2).is_empty());
    assert_eq!(printed_lines(&msgs, MessageType::Info, 3), vec!["(3) x", "y"]);
    assert_eq!(usize_to_decimal(0), "0");
    assert_eq!(usize_to_decimal(1907), "1907");
}
