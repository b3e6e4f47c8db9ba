//! Assembly of the glTF document parts from the nodes of a mesh sequence.
use vstd::prelude::*;

use crate::attrib::{component_name, shape_name, AttribTransfer, MaterialGroups, MaterialIds, Type};
use crate::builder::{
    groups_in_range, is_vec3_accessor, tri_in_range, Accessor, AnimationAccessors, DocumentBuilder,
};
use crate::config::{
    NORMAL_ATTRIB_NAME, NORMAL_DISPLACEMENT_ATTRIB_NAME, TANGENT_ATTRIB_NAME, POSITION_ATTRIB_NAME, POSITION_DISPLACEMENT_ATTRIB_NAME,
    TANGENT_DISPLACEMENT_ATTRIB_NAME,
};
use crate::attrib::{is_color_type, is_tex_coord_component, Attribute, ComponentType, Shape, TextureAttribute};
use crate::primitives::{
    attributes_view, build_primitives, expected_attributes, group_ids, log_missing,
    primitive_material, AttributeAccessors, Mode, MorphTarget, Primitive,
};
use crate::builder::is_attribute_accessor;
use crate::utils::{log_spec, messages_view};
use crate::segment::Topology;
use crate::utils::push_message;
use vstd::string::StringExecFns;

verus! {

/// 3D vectors of `F32` bit patterns with their componentwise bounds.
#[derive(Clone, Debug)]
pub struct Vec3Data {
    pub values: Vec<[u32; 3]>,
    pub min: [u32; 3],
    pub max: [u32; 3],
}

/// A morph target: its frame, the bit pattern of its time, and its
/// displacements; normal and tangent displacements may be empty.
#[derive(Clone, Debug)]
pub struct Morph {
    pub frame: u32,
    pub time: u32,
    pub position_disp: Vec3Data,
    pub normal_disp: Vec3Data,
    pub tangent_disp: Vec3Data,
}

impl Vec3Data {
    /// No vectors.
    pub fn empty() -> (r: Vec3Data)
        ensures
            r.values@.len() == 0,
    {
        Vec3Data { values: Vec::new(), min: [0, 0, 0], max: [0, 0, 0] }
    }
}

impl Morph {
    /// A morph target displacing positions only: normals and tangents are
    /// taken to be unchanged.
    pub fn new(frame: u32, time: u32, position_disp: Vec3Data) -> (r: Morph)
        ensures
            r.frame == frame,
            r.time == time,
            r.position_disp == position_disp,
            r.normal_disp.values@.len() == 0,
            r.tangent_disp.values@.len() == 0,
    {
        Morph {
            frame,
            time,
            position_disp,
            normal_disp: Vec3Data::empty(),
            tangent_disp: Vec3Data::empty(),
        }
    }
}

/// One export unit: a name, its first frame and the bit pattern of that
/// frame's time, the base mesh topology and positions, its attributes with
/// global material ids, and its morph targets.
#[derive(Debug)]
pub struct Node {
    pub name: String,
    pub first_frame: u32,
    pub first_time: u32,
    pub topology: Topology,
    pub positions: Vec3Data,
    pub attrib_transfer: AttribTransfer,
    pub morphs: Vec<Morph>,
}

/// A scene node referring to a mesh.
#[derive(Clone, Debug)]
pub struct NodeRecord {
    pub name: String,
    pub mesh: usize,
}

/// An animation channel driving the morph target weights of a node with a
/// sampler.
#[derive(Clone, Copy, Debug)]
pub struct Channel {
    pub sampler: usize,
    pub node: usize,
}

/// A linear animation sampler from keyframe times to weights.
#[derive(Clone, Copy, Debug)]
pub struct Sampler {
    pub input: usize,
    pub output: usize,
}

/// The document parts built from the nodes, besides the buffer.
#[derive(Clone, Debug)]
pub struct GltfParts {
    pub nodes: Vec<NodeRecord>,
    pub meshes: Vec<Vec<Primitive>>,
    pub attributes: Vec<AttributeAccessors>,
    pub channels: Vec<Channel>,
    pub samplers: Vec<Sampler>,
    pub add_default_material: bool,
}

/// The material groups of an attribute transfer whose ids are global.
pub open spec fn global_groups(t: AttribTransfer) -> Option<MaterialGroups> {
    match t.material_ids {
        Some(MaterialIds::Global { map }) => Some(map),
        _ => None,
    }
}

/// Whether a node can be exported: global material ids that index its faces,
/// vertex indices that fit in 32 bits, whole attribute elements, and few
/// enough morph targets to index their weights in 32 bits.
pub open spec fn node_ok(n: Node) -> bool {
    &&& !(n.attrib_transfer.material_ids matches Some(MaterialIds::Local { .. }))
    &&& (global_groups(n.attrib_transfer) matches Some(g) ==> g.wf())
    &&& (n.topology matches Topology::Triangles { indices, .. } ==> tri_in_range(indices@) && (
    global_groups(n.attrib_transfer) matches Some(g) ==> groups_in_range(g, indices@.len())))
    &&& forall|i: int|
        0 <= i < n.attrib_transfer.attribs_to_keep@.len()
            ==> #[trigger] n.attrib_transfer.attribs_to_keep@[i].wf()
    &&& forall|i: int|
        0 <= i < n.attrib_transfer.color_attribs_to_keep@.len()
            ==> #[trigger] n.attrib_transfer.color_attribs_to_keep@[i].wf()
    &&& forall|i: int|
        0 <= i < n.attrib_transfer.tex_attribs_to_keep@.len()
            ==> #[trigger] n.attrib_transfer.tex_attribs_to_keep@[i].wf()
    &&& n.attrib_transfer.color_attribs_to_keep@.len() <= u32::MAX
    &&& n.morphs@.len() * (n.morphs@.len() + 1) <= u32::MAX
}

/// Whether a node asks for a material: it has color or texture coordinate
/// attributes.
pub open spec fn wants_material(n: Node) -> bool {
    n.attrib_transfer.color_attribs_to_keep@.len() > 0
        || n.attrib_transfer.tex_attribs_to_keep@.len() > 0
}

/// Whether `accs` begins with `prefix`: accessors are only ever appended.
pub open spec fn extends(accs: Seq<Accessor>, prefix: Seq<Accessor>) -> bool {
    prefix.len() <= accs.len() && accs.take(prefix.len() as int) == prefix
}

/// Whether accessor `i` of `accs` describes the vectors `v` under `name`:
/// their count, the `F32` `Vec3` type and the given bounds.
pub open spec fn describes_vec3(accs: Seq<Accessor>, i: int, v: Vec3Data, name: Seq<char>) -> bool {
    &&& 0 <= i < accs.len()
    &&& accs[i].buffer_view.is_some()
    &&& is_vec3_accessor(accs[i], accs[i].buffer_view.unwrap() as nat, v.values@.len(), v.min, v.max, name)
}

/// Writes a 3D vector array as [`DocumentBuilder::push_vec3`] does, unless it
/// is empty.
fn push_vec3_opt(b: &mut DocumentBuilder, v: &Vec3Data, name: &str) -> (r: Option<usize>)
    requires
        old(b).wf(),
    ensures
        final(b).wf(),
        extends(final(b).accessor_seq(), old(b).accessor_seq()),
        r.is_some() <==> v.values@.len() > 0,
        r.is_none() ==> final(b).accessor_seq() == old(b).accessor_seq(),
        r matches Some(i) ==> i == old(b).accessor_seq().len() && describes_vec3(
            final(b).accessor_seq(),
            i as int,
            *v,
            name@,
        ),
{
    if v.values.len() == 0 {
        assert(b.accessor_seq().take(b.accessor_seq().len() as int) =~= b.accessor_seq());
        None
    } else {
        Some(b.push_vec3(&v.values, v.min, v.max, name))
    }
}

/// Whether a morph target holds accessors for the displacements of a morph:
/// positions under `dP`, normals under `dN`, tangents under `dT`, each
/// present exactly when the morph has such displacements.
pub open spec fn target_describes(t: MorphTarget, m: Morph, accs: Seq<Accessor>) -> bool {
    &&& (t.positions.is_some() <==> m.position_disp.values@.len() > 0)
    &&& (t.normals.is_some() <==> m.normal_disp.values@.len() > 0)
    &&& (t.tangents.is_some() <==> m.tangent_disp.values@.len() > 0)
    &&& (t.positions matches Some(i) ==> describes_vec3(
        accs,
        i as int,
        m.position_disp,
        POSITION_DISPLACEMENT_ATTRIB_NAME@,
    ))
    &&& (t.normals matches Some(i) ==> describes_vec3(
        accs,
        i as int,
        m.normal_disp,
        NORMAL_DISPLACEMENT_ATTRIB_NAME@,
    ))
    &&& (t.tangents matches Some(i) ==> describes_vec3(
        accs,
        i as int,
        m.tangent_disp,
        TANGENT_DISPLACEMENT_ATTRIB_NAME@,
    ))
}

proof fn lemma_target_extends(t: MorphTarget, m: Morph, a1: Seq<Accessor>, a2: Seq<Accessor>)
    requires
        target_describes(t, m, a1),
        extends(a2, a1),
    ensures
        target_describes(t, m, a2),
{
    assert forall|i: int| 0 <= i < a1.len() implies a2[i] == a1[i] by {
        assert(a2.take(a1.len() as int)[i] == a2[i]);
    }
}

/// The morph target accessors of one morph, appended in the order
/// positions, normals, tangents.
fn build_morph_target(b: &mut DocumentBuilder, m: &Morph) -> (r: MorphTarget)
    requires
        old(b).wf(),
    ensures
        final(b).wf(),
        extends(final(b).accessor_seq(), old(b).accessor_seq()),
        target_describes(r, *m, final(b).accessor_seq()),
        r.positions matches Some(i) ==> i == old(b).accessor_seq().len(),
{
    let positions = push_vec3_opt(b, &m.position_disp, POSITION_DISPLACEMENT_ATTRIB_NAME);
    let ghost a1 = b.accessor_seq();
    let normals = push_vec3_opt(b, &m.normal_disp, NORMAL_DISPLACEMENT_ATTRIB_NAME);
    let ghost a2 = b.accessor_seq();
    let tangents = push_vec3_opt(b, &m.tangent_disp, TANGENT_DISPLACEMENT_ATTRIB_NAME);
    let r = MorphTarget { positions, normals, tangents };
    proof {
        let a3 = b.accessor_seq();
        assert forall|i: int| 0 <= i < a1.len() implies a3[i] == a1[i] by {
            assert(a2.take(a1.len() as int)[i] == a2[i]);
            assert(a3.take(a2.len() as int)[i] == a3[i]);
        }
        assert forall|i: int| 0 <= i < a2.len() implies a3[i] == a2[i] by {
            assert(a3.take(a2.len() as int)[i] == a3[i]);
        }
        assert(a3.take(old(b).accessor_seq().len() as int) =~= old(b).accessor_seq()) by {
            assert forall|i: int| 0 <= i < old(b).accessor_seq().len() implies a3[i] == old(
                b,
            ).accessor_seq()[i] by {
                assert(a1.take(old(b).accessor_seq().len() as int)[i] == a1[i]);
            }
        }
    }
    r
}

/// The number of primitives of a node: one per index accessor of a triangle
/// mesh (one per material group, or one), and one for a point cloud.
pub open spec fn num_primitives(n: Node) -> nat {
    match n.topology {
        Topology::Triangles { .. } => match global_groups(n.attrib_transfer) {
            Some(g) => g.spec_num_groups(),
            None => 1,
        },
        Topology::Points { .. } => 1,
    }
}

/// The material of primitive `k` of a node, given the number of materials:
/// the material of its group when the table has it; without groups, the
/// first material of a triangle mesh when there is one, and none for a point
/// cloud; a point cloud with groups uses the material of its first group.
pub open spec fn expected_material(n: Node, k: int, num_materials: nat) -> Option<u32> {
    match (n.topology, global_groups(n.attrib_transfer)) {
        (Topology::Triangles { .. }, Some(g)) => primitive_material(g.spec_id(k), num_materials),
        (Topology::Triangles { .. }, None) => if num_materials > 0 {
            Some(0u32)
        } else {
            None
        },
        (Topology::Points { .. }, Some(g)) => primitive_material(
            if g.spec_num_groups() > 0 {
                g.spec_id(0)
            } else {
                0
            },
            num_materials,
        ),
        (Topology::Points { .. }, None) => None,
    }
}

/// The result of exporting one node: its primitives, the accessors of its
/// vertex attributes, and its animation accessors if it has morphs.
pub struct NodeExport {
    pub primitives: Vec<Primitive>,
    pub attributes: AttributeAccessors,
    pub animation: Option<AnimationAccessors>,
}

pub proof fn lemma_extends_trans(a3: Seq<Accessor>, a2: Seq<Accessor>, a1: Seq<Accessor>)
    requires
        extends(a3, a2),
        extends(a2, a1),
    ensures
        extends(a3, a1),
{
    assert forall|i: int| 0 <= i < a1.len() implies a3[i] == a1[i] by {
        assert(a3.take(a2.len() as int)[i] == a3[i]);
        assert(a2.take(a1.len() as int)[i] == a2[i]);
    }
    assert(a3.take(a1.len() as int) =~= a1);
}

/// Whether accessor `i` of `accs` describes `count` elements of a named
/// vertex attribute with the given component type and shape.
pub open spec fn describes_attribute(
    accs: Seq<Accessor>,
    i: int,
    count: nat,
    c: ComponentType,
    shape: Shape,
    name: Seq<char>,
) -> bool {
    &&& 0 <= i < accs.len()
    &&& accs[i].buffer_view.is_some()
    &&& is_attribute_accessor(accs[i], accs[i].buffer_view.unwrap() as nat, count, c, shape, name)
}

/// Whether the position, normal and tangent accessors of node `n` describe
/// its positions under `P`, and its normals under `N` and tangents under `T`
/// exactly when it has them.
pub open spec fn base_vectors_ok(
    n: Node,
    position: usize,
    normal: Option<usize>,
    tangent: Option<usize>,
    accs: Seq<Accessor>,
) -> bool {
    let t = n.attrib_transfer;
    &&& describes_vec3(accs, position as int, n.positions, POSITION_ATTRIB_NAME@)
    &&& (normal.is_some() <==> t.normal_attrib.values@.len() > 0)
    &&& (normal matches Some(x) ==> describes_vec3(accs, x as int, t.normal_attrib, NORMAL_ATTRIB_NAME@))
    &&& (tangent.is_some() <==> t.tangent_attrib.values@.len() > 0)
    &&& (tangent matches Some(x) ==> describes_vec3(
        accs,
        x as int,
        t.tangent_attrib,
        TANGENT_ATTRIB_NAME@,
    ))
}

/// Whether `a` holds the accessors of the vertex attributes of node `n`:
/// positions under `P`; for each color attribute an accessor exactly when its
/// type is a color encoding; for each custom attribute an accessor under its
/// name; for each texture coordinate attribute its slot and an accessor of
/// two components exactly when its component type is valid.
pub open spec fn node_attributes_ok(n: Node, a: AttributeAccessors, accs: Seq<Accessor>) -> bool {
    let t = n.attrib_transfer;
    &&& base_vectors_ok(n, a.position, a.normal, a.tangent, accs)
    &&& a.colors@.len() == t.color_attribs_to_keep@.len()
    &&& forall|i: int|
        0 <= i < a.colors@.len() ==> ((#[trigger] a.colors@[i]).is_some() == is_color_type(
            t.color_attribs_to_keep@[i].type_,
        )) && (a.colors@[i] matches Some(x) ==> describes_attribute(
            accs,
            x as int,
            t.color_attribs_to_keep@[i].spec_len(),
            t.color_attribs_to_keep@[i].type_.spec_component(),
            t.color_attribs_to_keep@[i].type_.spec_shape(),
            t.color_attribs_to_keep@[i].name@,
        ))
    &&& a.custom@.len() == t.attribs_to_keep@.len()
    &&& forall|i: int|
        0 <= i < a.custom@.len() ==> (#[trigger] a.custom@[i]).0@ == t.attribs_to_keep@[i].name@
            && describes_attribute(
            accs,
            a.custom@[i].1 as int,
            t.attribs_to_keep@[i].spec_len(),
            t.attribs_to_keep@[i].type_.spec_component(),
            t.attribs_to_keep@[i].type_.spec_shape(),
            t.attribs_to_keep@[i].name@,
        )
    &&& a.tex_coords@.len() == t.tex_attribs_to_keep@.len()
    &&& forall|i: int|
        0 <= i < a.tex_coords@.len() ==> (#[trigger] a.tex_coords@[i]).0
            == t.tex_attribs_to_keep@[i].id && (a.tex_coords@[i].1.is_some()
            == is_tex_coord_component(t.tex_attribs_to_keep@[i].component_type)) && (
        a.tex_coords@[i].1 matches Some(x) ==> describes_attribute(
            accs,
            x as int,
            t.tex_attribs_to_keep@[i].spec_len(),
            t.tex_attribs_to_keep@[i].component_type,
            Shape::Vec2,
            t.tex_attribs_to_keep@[i].name@,
        ))
}

pub proof fn lemma_node_attributes_extend(
    n: Node,
    a: AttributeAccessors,
    a1: Seq<Accessor>,
    a2: Seq<Accessor>,
)
    requires
        node_attributes_ok(n, a, a1),
        extends(a2, a1),
    ensures
        node_attributes_ok(n, a, a2),
{
    assert forall|i: int| 0 <= i < a1.len() implies a2[i] == a1[i] by {
        assert(a2.take(a1.len() as int)[i] == a2[i]);
    }
}

/// Whether the morph targets of a primitive are those of node `n`: none
/// without morphs, and otherwise one per morph, describing its displacements.
pub open spec fn targets_ok(targets: Option<Vec<MorphTarget>>, n: Node, accs: Seq<Accessor>) -> bool {
    match targets {
        None => n.morphs@.len() == 0,
        Some(ts) => {
            &&& n.morphs@.len() > 0
            &&& ts@.len() == n.morphs@.len()
            &&& forall|j: int|
                0 <= j < ts@.len() ==> target_describes(#[trigger] ts@[j], n.morphs@[j], accs)
        },
    }
}

/// The warning for a color attribute whose type is not a color encoding.
pub open spec fn color_warning(t: Type) -> Seq<char> {
    "Invalid "@ + "color"@ + " attribute type detected: "@ + shape_name(t.spec_shape()) + "("@
        + component_name(t.spec_component()) + "). Skipping..."@
}

/// The warning for a texture coordinate attribute of an invalid component type.
pub open spec fn tex_warning(c: ComponentType) -> Seq<char> {
    "Invalid texture coordinate attribute type detected: "@ + component_name(c) + ". Skipping..."@
}

/// The warnings after the first `n` color attributes.
pub open spec fn color_warnings(v: Seq<(usize, Seq<char>)>, attrs: Seq<Attribute>, n: nat) -> Seq<
    (usize, Seq<char>),
>
    decreases n,
{
    if n == 0 || n > attrs.len() {
        v
    } else {
        let prev = color_warnings(v, attrs, (n - 1) as nat);
        if is_color_type(attrs[n - 1].type_) {
            prev
        } else {
            log_spec(prev, color_warning(attrs[n - 1].type_))
        }
    }
}

/// The warnings after the first `n` texture coordinate attributes.
pub open spec fn tex_warnings(v: Seq<(usize, Seq<char>)>, attrs: Seq<TextureAttribute>, n: nat) -> Seq<
    (usize, Seq<char>),
>
    decreases n,
{
    if n == 0 || n > attrs.len() {
        v
    } else {
        let prev = tex_warnings(v, attrs, (n - 1) as nat);
        if is_tex_coord_component(attrs[n - 1].component_type) {
            prev
        } else {
            log_spec(prev, tex_warning(attrs[n - 1].component_type))
        }
    }
}

/// The warnings after exporting node `n`: one for each skipped color
/// attribute, then one for each skipped texture coordinate attribute.
pub open spec fn node_warnings(v: Seq<(usize, Seq<char>)>, n: Node) -> Seq<(usize, Seq<char>)> {
    let t = n.attrib_transfer;
    tex_warnings(
        color_warnings(v, t.color_attribs_to_keep@, t.color_attribs_to_keep@.len()),
        t.tex_attribs_to_keep@,
        t.tex_attribs_to_keep@.len(),
    )
}

/// The messages after exporting node `n`: one for each material group of a
/// triangle mesh whose material the table lacks.
pub open spec fn node_msgs(v: Seq<(usize, Seq<char>)>, n: Node, num_materials: nat) -> Seq<
    (usize, Seq<char>),
> {
    match (n.topology, global_groups(n.attrib_transfer)) {
        (Topology::Triangles { .. }, Some(g)) => log_missing(
            v,
            group_ids(g),
            g.spec_num_groups(),
            num_materials,
        ),
        _ => v,
    }
}

/// A diagnostic naming an attribute type that cannot be used for its role.
fn invalid_type_message(role: &str, t: Type) -> (r: String)
    ensures
        r@ == "Invalid "@ + role@ + " attribute type detected: "@ + shape_name(t.spec_shape())
            + "("@ + component_name(t.spec_component()) + "). Skipping..."@,
{
    let mut m = String::new();
    m.append("Invalid ");
    m.append(role);
    m.append(" attribute type detected: ");
    m.append(t.shape().name());
    m.append("(");
    m.append(t.component_type().name());
    m.append("). Skipping...");
    assert(m@ =~= "Invalid "@ + role@ + " attribute type detected: "@ + shape_name(t.spec_shape())
        + "("@ + component_name(t.spec_component()) + "). Skipping..."@);
    m
}

/// Writes the data of one node and builds its primitives: indices split by
/// material, positions, color, custom and texture coordinate attributes
/// (invalid color and texture coordinate types are skipped with a warning),
/// and the animation with its morph targets when the node has morphs.
pub fn build_node(
    b: &mut DocumentBuilder,
    node: &Node,
    num_materials: usize,
    insert_vanishing_frames: bool,
    msgs: &mut Vec<(usize, String)>,
    warnings: &mut Vec<(usize, String)>,
) -> (r: NodeExport)
    requires
        old(b).wf(),
        node_ok(*node),
    ensures
        final(b).wf(),
        extends(final(b).accessor_seq(), old(b).accessor_seq()),
        node_attributes_ok(*node, r.attributes, final(b).accessor_seq()),
        r.primitives@.len() == num_primitives(*node),
        forall|k: int|
            0 <= k < r.primitives@.len() ==> (#[trigger] r.primitives@[k]).mode == (
            if node.topology matches Topology::Triangles { .. } {
                Mode::Triangles
            } else {
                Mode::Points
            }) && r.primitives@[k].material == expected_material(*node, k, num_materials as nat)
                && attributes_view(r.primitives@[k].attributes@) == expected_attributes(r.attributes)
                && targets_ok(r.primitives@[k].targets, *node, final(b).accessor_seq()),
        r.animation.is_some() <==> node.morphs@.len() > 0,
        r.animation matches Some(an) ==> an.weights < final(b).accessor_seq().len() && an.time
            < final(b).accessor_seq().len(),
        messages_view(final(warnings)@) == node_warnings(messages_view(old(warnings)@), *node),
        messages_view(final(msgs)@) == node_msgs(messages_view(old(msgs)@), *node, num_materials as nat),
{
    let t = &node.attrib_transfer;
    let groups: Option<MaterialGroups> = match &t.material_ids {
        Some(MaterialIds::Global { map }) => Some(map.copy()),
        _ => None,
    };
    assert(groups.is_some() ==> global_groups(*t).is_some() && groups.unwrap().entries()
        == global_groups(*t).unwrap().entries());
    let ghost acc_start = b.accessor_seq();
    let ghost w0 = messages_view(warnings@);

    let indices = match &node.topology {
        Topology::Triangles { indices, .. } => {
            proof {
                if groups.is_some() {
                    let g0 = global_groups(*t).unwrap();
                    let g1 = groups.unwrap();
                    assert(groups_in_range(g0, indices@.len()));
                    assert forall|k: int, j: int|
                        0 <= k < g1.spec_num_groups() && 0 <= j < g1.spec_faces(k).len()
                            implies #[trigger] g1.spec_faces(k)[j] < indices@.len() by {
                        assert(g1.spec_faces(k) == g0.spec_faces(k));
                        assert(g0.spec_faces(k)[j] < indices@.len());
                    }
                }
            }
            Some(b.build_indices(indices, &groups))
        },
        Topology::Points { .. } => {
            None
        },
    };
    let ghost acc_idx = b.accessor_seq();
    let position = b.push_vec3(
        &node.positions.values,
        node.positions.min,
        node.positions.max,
        POSITION_ATTRIB_NAME,
    );
    proof {
        assert(b.accessor_seq().take(acc_idx.len() as int) =~= acc_idx);
        assert(acc_idx.take(acc_start.len() as int) =~= acc_start);
        lemma_extends_trans(b.accessor_seq(), acc_idx, acc_start);
    }
    let ghost acc_p = b.accessor_seq();
    let normal = push_vec3_opt(b, &t.normal_attrib, NORMAL_ATTRIB_NAME);
    let ghost acc_n = b.accessor_seq();
    let tangent = push_vec3_opt(b, &t.tangent_attrib, TANGENT_ATTRIB_NAME);
    proof {
        lemma_extends_trans(b.accessor_seq(), acc_n, acc_p);
        lemma_extends_trans(b.accessor_seq(), acc_p, acc_start);
        assert forall|x: int| 0 <= x < acc_p.len() implies b.accessor_seq()[x] == acc_p[x] by {
            assert(b.accessor_seq().take(acc_p.len() as int)[x] == b.accessor_seq()[x]);
        }
        assert forall|x: int| 0 <= x < acc_n.len() implies b.accessor_seq()[x] == acc_n[x] by {
            assert(b.accessor_seq().take(acc_n.len() as int)[x] == b.accessor_seq()[x]);
        }
    }
    assert(base_vectors_ok(*node, position, normal, tangent, b.accessor_seq()));

    let ghost cols = t.color_attribs_to_keep@;
    let mut colors: Vec<Option<usize>> = Vec::new();
    let mut i: usize = 0;
    while i < t.color_attribs_to_keep.len()
        invariant
            b.wf(),
            node_ok(*node),
            *t == node.attrib_transfer,
            cols == t.color_attribs_to_keep@,
            i <= cols.len(),
            colors@.len() == i,
            extends(b.accessor_seq(), acc_start),
            base_vectors_ok(*node, position, normal, tangent, b.accessor_seq()),
            forall|j: int|
                0 <= j < i ==> ((#[trigger] colors@[j]).is_some() == is_color_type(cols[j].type_))
                    && (colors@[j] matches Some(x) ==> describes_attribute(
                    b.accessor_seq(),
                    x as int,
                    cols[j].spec_len(),
                    cols[j].type_.spec_component(),
                    cols[j].type_.spec_shape(),
                    cols[j].name@,
                )),
            messages_view(warnings@) == color_warnings(w0, cols, i as nat),
        decreases cols.len() - i,
    {
        let a = &t.color_attribs_to_keep[i];
        let ghost before = b.accessor_seq();
        let acc = b.push_color_attribute(a);
        if acc.is_none() {
            push_message(warnings, invalid_type_message("color", a.type_));
        }
        proof {
            if acc.is_some() {
                assert(b.accessor_seq().take(before.len() as int) =~= before);
            } else {
                assert(b.accessor_seq().take(before.len() as int) =~= before);
            }
            lemma_extends_trans(b.accessor_seq(), before, acc_start);
            assert forall|x: int| 0 <= x < before.len() implies b.accessor_seq()[x] == before[x] by {
                assert(b.accessor_seq().take(before.len() as int)[x] == b.accessor_seq()[x]);
            }
        }
        colors.push(acc);
        i = i + 1;
    }

    let ghost cus = t.attribs_to_keep@;
    let mut custom: Vec<(String, usize)> = Vec::new();
    let mut i: usize = 0;
    while i < t.attribs_to_keep.len()
        invariant
            b.wf(),
            node_ok(*node),
            *t == node.attrib_transfer,
            cols == t.color_attribs_to_keep@,
            cus == t.attribs_to_keep@,
            i <= cus.len(),
            custom@.len() == i,
            colors@.len() == cols.len(),
            extends(b.accessor_seq(), acc_start),
            base_vectors_ok(*node, position, normal, tangent, b.accessor_seq()),
            forall|j: int|
                0 <= j < cols.len() ==> ((#[trigger] colors@[j]).is_some() == is_color_type(
                    cols[j].type_,
                )) && (colors@[j] matches Some(x) ==> describes_attribute(
                    b.accessor_seq(),
                    x as int,
                    cols[j].spec_len(),
                    cols[j].type_.spec_component(),
                    cols[j].type_.spec_shape(),
                    cols[j].name@,
                )),
            forall|j: int|
                0 <= j < i ==> (#[trigger] custom@[j]).0@ == cus[j].name@ && describes_attribute(
                    b.accessor_seq(),
                    custom@[j].1 as int,
                    cus[j].spec_len(),
                    cus[j].type_.spec_component(),
                    cus[j].type_.spec_shape(),
                    cus[j].name@,
                ),
        decreases cus.len() - i,
    {
        let a = &t.attribs_to_keep[i];
        let ghost before = b.accessor_seq();
        let acc = b.push_attribute(a);
        proof {
            assert(b.accessor_seq().take(before.len() as int) =~= before);
            lemma_extends_trans(b.accessor_seq(), before, acc_start);
            assert forall|x: int| 0 <= x < before.len() implies b.accessor_seq()[x] == before[x] by {
                assert(b.accessor_seq().take(before.len() as int)[x] == b.accessor_seq()[x]);
            }
        }
        custom.push((a.name.clone(), acc));
        i = i + 1;
    }

    let ghost texs = t.tex_attribs_to_keep@;
    let ghost w1 = messages_view(warnings@);
    let mut tex_coords: Vec<(u32, Option<usize>)> = Vec::new();
    let mut i: usize = 0;
    while i < t.tex_attribs_to_keep.len()
        invariant
            b.wf(),
            node_ok(*node),
            *t == node.attrib_transfer,
            cols == t.color_attribs_to_keep@,
            cus == t.attribs_to_keep@,
            texs == t.tex_attribs_to_keep@,
            i <= texs.len(),
            tex_coords@.len() == i,
            colors@.len() == cols.len(),
            custom@.len() == cus.len(),
            extends(b.accessor_seq(), acc_start),
            base_vectors_ok(*node, position, normal, tangent, b.accessor_seq()),
            forall|j: int|
                0 <= j < cols.len() ==> ((#[trigger] colors@[j]).is_some() == is_color_type(
                    cols[j].type_,
                )) && (colors@[j] matches Some(x) ==> describes_attribute(
                    b.accessor_seq(),
                    x as int,
                    cols[j].spec_len(),
                    cols[j].type_.spec_component(),
                    cols[j].type_.spec_shape(),
                    cols[j].name@,
                )),
            forall|j: int|
                0 <= j < cus.len() ==> (#[trigger] custom@[j]).0@ == cus[j].name@ && describes_attribute(
                    b.accessor_seq(),
                    custom@[j].1 as int,
                    cus[j].spec_len(),
                    cus[j].type_.spec_component(),
                    cus[j].type_.spec_shape(),
                    cus[j].name@,
                ),
            forall|j: int|
                0 <= j < i ==> (#[trigger] tex_coords@[j]).0 == texs[j].id && (tex_coords@[j].1.is_some()
                    == is_tex_coord_component(texs[j].component_type)) && (
                tex_coords@[j].1 matches Some(x) ==> describes_attribute(
                    b.accessor_seq(),
                    x as int,
                    texs[j].spec_len(),
                    texs[j].component_type,
                    Shape::Vec2,
                    texs[j].name@,
                )),
            messages_view(warnings@) == tex_warnings(w1, texs, i as nat),
        decreases texs.len() - i,
    {
        let a = &t.tex_attribs_to_keep[i];
        let ghost before = b.accessor_seq();
        let acc = b.push_tex_attribute(a);
        if acc.is_none() {
            let mut m = String::new();
            m.append("Invalid texture coordinate attribute type detected: ");
            m.append(a.component_type.name());
            m.append(". Skipping...");
            assert(m@ =~= tex_warning(a.component_type));
            push_message(warnings, m);
        }
        proof {
            assert(b.accessor_seq().take(before.len() as int) =~= before);
            lemma_extends_trans(b.accessor_seq(), before, acc_start);
            assert forall|x: int| 0 <= x < before.len() implies b.accessor_seq()[x] == before[x] by {
                assert(b.accessor_seq().take(before.len() as int)[x] == b.accessor_seq()[x]);
            }
        }
        tex_coords.push((a.id, acc));
        i = i + 1;
    }
    let attrs = AttributeAccessors { position, normal, tangent, colors, tex_coords, custom };
    let ghost acc1 = b.accessor_seq();
    assert(node_attributes_ok(*node, attrs, acc1));

    let mut animation: Option<AnimationAccessors> = None;
    let mut targets: Option<Vec<MorphTarget>> = None;
    if node.morphs.len() > 0 {
        let mut times: Vec<u32> = Vec::new();
        times.push(node.first_time);
        let mut i: usize = 0;
        while i < node.morphs.len()
            invariant
                i <= node.morphs@.len(),
                times@.len() == i + 1,
            decreases node.morphs@.len() - i,
        {
            times.push(node.morphs[i].time);
            i = i + 1;
        }
        let leading_vanish = insert_vanishing_frames && node.first_frame != 0;
        assert((times@.len() - 1) * times@.len() == node.morphs@.len() * (node.morphs@.len() + 1));
        animation = b.build_animation(&times, leading_vanish);
        proof {
            assert(b.accessor_seq().take(acc1.len() as int) =~= acc1);
        }
        let ghost acc2 = b.accessor_seq();
        assert(acc2.take(acc2.len() as int) =~= acc2);
        let mut ts: Vec<MorphTarget> = Vec::new();
        let mut i: usize = 0;
        while i < node.morphs.len()
            invariant
                b.wf(),
                i <= node.morphs@.len(),
                ts@.len() == i,
                extends(b.accessor_seq(), acc2),
                extends(acc2, acc1),
                animation matches Some(an) ==> an.weights < acc2.len() && an.time < acc2.len(),
                forall|j: int|
                    0 <= j < i ==> target_describes(#[trigger] ts@[j], node.morphs@[j], b.accessor_seq()),
            decreases node.morphs@.len() - i,
        {
            let ghost before = b.accessor_seq();
            let tg = build_morph_target(b, &node.morphs[i]);
            proof {
                lemma_extends_trans(b.accessor_seq(), before, acc2);
                assert forall|j: int| 0 <= j < i implies target_describes(
                    #[trigger] ts@[j],
                    node.morphs@[j],
                    b.accessor_seq(),
                ) by {
                    lemma_target_extends(ts@[j], node.morphs@[j], before, b.accessor_seq());
                }
            }
            ts.push(tg);
            i = i + 1;
        }
        proof {
            lemma_extends_trans(b.accessor_seq(), acc2, acc1);
        }
        targets = Some(ts);
    } else {
        assert(b.accessor_seq().take(acc1.len() as int) =~= acc1);
    }
    let ghost targets_v = targets;
    let ghost m0 = messages_view(msgs@);
    let primitives = build_primitives(&attrs, indices, &groups, targets, num_materials, msgs);
    proof {
        lemma_extends_trans(b.accessor_seq(), acc1, acc_start);
        assert(acc_start.take(acc_start.len() as int) =~= acc_start);
        lemma_extends_trans(b.accessor_seq(), acc_start, old(b).accessor_seq());
        lemma_node_attributes_extend(*node, attrs, acc1, b.accessor_seq());
        if groups.is_some() {
            let g0 = global_groups(*t).unwrap();
            let g1 = groups.unwrap();
            assert forall|k: int| 0 <= k < g1.spec_num_groups() implies #[trigger] g1.spec_id(k)
                == g0.spec_id(k) by {}
            assert(group_ids(g1) =~= group_ids(g0));
        }
        assert forall|k: int| 0 <= k < primitives@.len() implies targets_ok(
            (#[trigger] primitives@[k]).targets,
            *node,
            b.accessor_seq(),
        ) by {
            match (primitives@[k].targets, targets_v) {
                (Some(x), Some(y)) => {
                    assert(x@ == y@);
                },
                _ => {},
            }
        }
    }
    NodeExport { primitives, attributes: attrs, animation }
}

/// Number of the first `n` nodes that have morph targets.
pub open spec fn num_animated(nodes: Seq<Node>, n: nat) -> nat
    decreases n,
{
    if n == 0 || n > nodes.len() {
        0
    } else {
        num_animated(nodes, (n - 1) as nat) + if nodes[n - 1].morphs@.len() > 0 {
            1nat
        } else {
            0nat
        }
    }
}

/// The number of materials that node `i` sees: a default material is added
/// at the first node that asks for one when there are no materials.
pub open spec fn materials_seen(nodes: Seq<Node>, i: int, num_materials: nat) -> nat {
    if num_materials == 0 && any_wants_material(nodes, (i + 1) as nat) {
        1
    } else {
        num_materials
    }
}

/// Whether one of the first `n` nodes asks for a material.
pub open spec fn any_wants_material(nodes: Seq<Node>, n: nat) -> bool {
    exists|i: int| 0 <= i < n && wants_material(#[trigger] nodes[i])
}

pub proof fn lemma_targets_ok_extend(
    targets: Option<Vec<MorphTarget>>,
    n: Node,
    a1: Seq<Accessor>,
    a2: Seq<Accessor>,
)
    requires
        targets_ok(targets, n, a1),
        extends(a2, a1),
    ensures
        targets_ok(targets, n, a2),
{
    if let Some(ts) = targets {
        assert forall|j: int| 0 <= j < ts@.len() implies target_describes(
            #[trigger] ts@[j],
            n.morphs@[j],
            a2,
        ) by {
            lemma_target_extends(ts@[j], n.morphs@[j], a1, a2);
        }
    }
}

/// The message logged when a default material is added.
pub open spec fn default_material_message() -> Seq<char> {
    "Colors or texture coordinates were found but no materials were specified; a default material was added."@
}

/// Whether node `i` is where the default material is added: there are no
/// materials and it is the first node that asks for one.
pub open spec fn adds_default(nodes: Seq<Node>, i: int, num_materials: nat) -> bool {
    num_materials == 0 && wants_material(nodes[i]) && !any_wants_material(nodes, i as nat)
}

/// The messages after exporting the first `n` nodes.
pub open spec fn all_msgs(v: Seq<(usize, Seq<char>)>, nodes: Seq<Node>, n: nat, num_materials: nat) -> Seq<
    (usize, Seq<char>),
>
    decreases n,
{
    if n == 0 || n > nodes.len() {
        v
    } else {
        let prev = all_msgs(v, nodes, (n - 1) as nat, num_materials);
        let with_default = if adds_default(nodes, n - 1, num_materials) {
            log_spec(prev, default_material_message())
        } else {
            prev
        };
        node_msgs(with_default, nodes[n - 1], materials_seen(nodes, n - 1, num_materials))
    }
}

/// The warnings after exporting the first `n` nodes.
pub open spec fn all_warnings(v: Seq<(usize, Seq<char>)>, nodes: Seq<Node>, n: nat) -> Seq<
    (usize, Seq<char>),
>
    decreases n,
{
    if n == 0 || n > nodes.len() {
        v
    } else {
        node_warnings(all_warnings(v, nodes, (n - 1) as nat), nodes[n - 1])
    }
}

/// Builds the document parts of the nodes in order, writing their data into
/// the buffer. Node `i` refers to mesh `i`, whose primitives use the vertex
/// attribute accessors in `attributes[i]`. A node with morph targets gets an
/// animation channel and sampler, numbered in node order. A default material
/// is added, with a message, when there are no materials and a node has
/// color or texture coordinate attributes; primitives then use it.
pub fn build_gltf_parts(
    b: &mut DocumentBuilder,
    nodes: &Vec<Node>,
    num_materials: usize,
    insert_vanishing_frames: bool,
    msgs: &mut Vec<(usize, String)>,
    warnings: &mut Vec<(usize, String)>,
) -> (r: GltfParts)
    requires
        old(b).wf(),
        forall|i: int| 0 <= i < nodes@.len() ==> node_ok(#[trigger] nodes@[i]),
    ensures
        final(b).wf(),
        extends(final(b).accessor_seq(), old(b).accessor_seq()),
        r.nodes@.len() == nodes@.len(),
        r.meshes@.len() == nodes@.len(),
        r.attributes@.len() == nodes@.len(),
        forall|i: int|
            0 <= i < nodes@.len() ==> (#[trigger] r.nodes@[i]).mesh == i && r.nodes@[i].name@
                == nodes@[i].name@ && r.meshes@[i]@.len() == num_primitives(nodes@[i])
                && node_attributes_ok(nodes@[i], r.attributes@[i], final(b).accessor_seq()),
        forall|i: int, k: int|
            0 <= i < nodes@.len() && 0 <= k < r.meshes@[i]@.len() ==> (#[trigger] r.meshes@[i]@[k]).material
                == expected_material(nodes@[i], k, materials_seen(nodes@, i, num_materials as nat))
                && attributes_view(r.meshes@[i]@[k].attributes@) == expected_attributes(r.attributes@[i])
                && targets_ok(r.meshes@[i]@[k].targets, nodes@[i], final(b).accessor_seq()),
        r.add_default_material == (num_materials == 0 && any_wants_material(nodes@, nodes@.len())),
        r.channels@.len() == num_animated(nodes@, nodes@.len()),
        r.samplers@.len() == r.channels@.len(),
        forall|j: int|
            0 <= j < r.channels@.len() ==> (#[trigger] r.channels@[j]).sampler == j
                && r.channels@[j].node < nodes@.len() && nodes@[r.channels@[j].node as int].morphs@.len()
                > 0,
        forall|j1: int, j2: int|
            0 <= j1 < j2 < r.channels@.len() ==> (#[trigger] r.channels@[j1]).node
                < (#[trigger] r.channels@[j2]).node,
        messages_view(final(msgs)@) == all_msgs(
            messages_view(old(msgs)@),
            nodes@,
            nodes@.len(),
            num_materials as nat,
        ),
        messages_view(final(warnings)@) == all_warnings(
            messages_view(old(warnings)@),
            nodes@,
            nodes@.len(),
        ),
{
    let mut out_nodes: Vec<NodeRecord> = Vec::new();
    let mut meshes: Vec<Vec<Primitive>> = Vec::new();
    let mut attributes: Vec<AttributeAccessors> = Vec::new();
    let mut channels: Vec<Channel> = Vec::new();
    let mut samplers: Vec<Sampler> = Vec::new();
    let mut materials = num_materials;
    let mut add_default_material = false;
    let ghost m0 = messages_view(msgs@);
    let ghost w0 = messages_view(warnings@);
    let ghost a0 = b.accessor_seq();
    assert(a0.take(a0.len() as int) =~= a0);
    let mut i: usize = 0;
    while i < nodes.len()
        invariant
            b.wf(),
            forall|k: int| 0 <= k < nodes@.len() ==> node_ok(#[trigger] nodes@[k]),
            i <= nodes@.len(),
            out_nodes@.len() == i,
            meshes@.len() == i,
            attributes@.len() == i,
            a0 == old(b).accessor_seq(),
            extends(b.accessor_seq(), a0),
            forall|k: int|
                0 <= k < i ==> (#[trigger] out_nodes@[k]).mesh == k && out_nodes@[k].name@
                    == nodes@[k].name@ && meshes@[k]@.len() == num_primitives(nodes@[k])
                    && node_attributes_ok(nodes@[k], attributes@[k], b.accessor_seq()),
            forall|k: int, p: int|
                0 <= k < i && 0 <= p < meshes@[k]@.len() ==> (#[trigger] meshes@[k]@[p]).material
                    == expected_material(nodes@[k], p, materials_seen(nodes@, k, num_materials as nat))
                    && attributes_view(meshes@[k]@[p].attributes@) == expected_attributes(attributes@[k])
                    && targets_ok(meshes@[k]@[p].targets, nodes@[k], b.accessor_seq()),
            add_default_material == (num_materials == 0 && any_wants_material(nodes@, i as nat)),
            materials == if add_default_material {
                1
            } else {
                num_materials
            },
            channels@.len() == num_animated(nodes@, i as nat),
            samplers@.len() == channels@.len(),
            channels@.len() <= i,
            forall|j: int|
                0 <= j < channels@.len() ==> (#[trigger] channels@[j]).sampler == j
                    && channels@[j].node < i && nodes@[channels@[j].node as int].morphs@.len() > 0,
            forall|j1: int, j2: int|
                0 <= j1 < j2 < channels@.len() ==> (#[trigger] channels@[j1]).node
                    < (#[trigger] channels@[j2]).node,
            messages_view(msgs@) == all_msgs(m0, nodes@, i as nat, num_materials as nat),
            messages_view(warnings@) == all_warnings(w0, nodes@, i as nat),
        decreases nodes@.len() - i,
    {
        let node = &nodes[i];
        let ghost before_default = messages_view(msgs@);
        if (node.attrib_transfer.color_attribs_to_keep.len() > 0
            || node.attrib_transfer.tex_attribs_to_keep.len() > 0) && materials == 0 {
            materials = 1;
            add_default_material = true;
            push_message(
                msgs,
                "Colors or texture coordinates were found but no materials were specified; a default material was added.".to_owned(),
            );
        }
        assert(any_wants_material(nodes@, (i + 1) as nat) == (any_wants_material(nodes@, i as nat)
            || wants_material(nodes@[i as int])));
        let ghost acc_before = b.accessor_seq();
        let export = build_node(b, node, materials, insert_vanishing_frames, msgs, warnings);
        proof {
            lemma_extends_trans(b.accessor_seq(), acc_before, a0);
            assert forall|k: int| 0 <= k < i implies node_attributes_ok(
                nodes@[k],
                #[trigger] attributes@[k],
                b.accessor_seq(),
            ) by {
                assert(out_nodes@[k].mesh == k);
                lemma_node_attributes_extend(nodes@[k], attributes@[k], acc_before, b.accessor_seq());
            }
            assert forall|k: int, p: int| 0 <= k < i && 0 <= p < meshes@[k]@.len() implies targets_ok(
                (#[trigger] meshes@[k]@[p]).targets,
                nodes@[k],
                b.accessor_seq(),
            ) by {
                lemma_targets_ok_extend(meshes@[k]@[p].targets, nodes@[k], acc_before, b.accessor_seq());
            }
        }
        let ghost prev_channels = channels@;
        match export.animation {
            Some(anim) => {
                let sampler = samplers.len();
                channels.push(Channel { sampler, node: i });
                samplers.push(Sampler { input: anim.time, output: anim.weights });
                assert forall|j: int| 0 <= j < channels@.len() implies (#[trigger] channels@[j]).sampler
                    == j && channels@[j].node < i + 1 && nodes@[channels@[j].node as int].morphs@.len()
                    > 0 by {
                    if j < prev_channels.len() {
                        assert(channels@[j] == prev_channels[j]);
                    }
                }
                assert forall|j1: int, j2: int| 0 <= j1 < j2 < channels@.len() implies (
                #[trigger] channels@[j1]).node < (#[trigger] channels@[j2]).node by {
                    assert(channels@[j1] == prev_channels[j1]);
                    if j2 < prev_channels.len() {
                        assert(channels@[j2] == prev_channels[j2]);
                    }
                }
            },
            None => {},
        }
        let ghost prev_nodes = out_nodes@;
        let ghost prev_meshes = meshes@;
        let ghost prev_attrs = attributes@;
        out_nodes.push(NodeRecord { name: node.name.clone(), mesh: i });
        meshes.push(export.primitives);
        attributes.push(export.attributes);
        assert forall|k: int| 0 <= k < i + 1 implies (#[trigger] out_nodes@[k]).mesh == k
            && out_nodes@[k].name@ == nodes@[k].name@ && meshes@[k]@.len() == num_primitives(
            nodes@[k],
        ) && node_attributes_ok(nodes@[k], attributes@[k], b.accessor_seq()) by {
            if k < i {
                assert(out_nodes@[k] == prev_nodes[k]);
                assert(meshes@[k] == prev_meshes[k]);
                assert(attributes@[k] == prev_attrs[k]);
            }
        }
        assert(materials as nat == materials_seen(nodes@, i as int, num_materials as nat));
        assert forall|k: int, p: int|
            0 <= k < i + 1 && 0 <= p < meshes@[k]@.len() implies (#[trigger] meshes@[k]@[p]).material
            == expected_material(nodes@[k], p, materials_seen(nodes@, k, num_materials as nat))
            && attributes_view(meshes@[k]@[p].attributes@) == expected_attributes(attributes@[k])
            && targets_ok(meshes@[k]@[p].targets, nodes@[k], b.accessor_seq()) by {
            if k < i {
                assert(meshes@[k] == prev_meshes[k]);
                assert(attributes@[k] == prev_attrs[k]);
            }
        }
        proof {
            let with_default = if adds_default(nodes@, i as int, num_materials as nat) {
                log_spec(before_default, default_material_message())
            } else {
                before_default
            };
            reveal_strlit("Colors or texture coordinates were found but no materials were specified; a default material was added.");
            assert(all_msgs(m0, nodes@, (i + 1) as nat, num_materials as nat) == node_msgs(
                with_default,
                nodes@[i as int],
                materials_seen(nodes@, i as int, num_materials as nat),
            ));
        }
        i = i + 1;
    }
    GltfParts { nodes: out_nodes, meshes, attributes, channels, samplers, add_default_material }
}

} // verus!
