//! Assembly of mesh primitives from accessors and material groups.
use vstd::prelude::*;

use crate::attrib::MaterialGroups;
use crate::utils::{log_spec, messages_view, push_message};

verus! {

/// What heck's shouty snake case conversion returns for a string.
pub uninterp spec fn shouty_snake_of(s: Seq<char>) -> Seq<char>;

/// Relies on `heck::ToShoutySnakeCase::to_shouty_snake_case` for `str`: the
/// result depends on the characters alone, and an empty string gives an
/// empty string.
#[verifier::external_body]
fn shouty_snake_case(s: &str) -> (r: String)
    ensures
        r@ == shouty_snake_of(s@),
        s@.len() == 0 ==> r@.len() == 0,
{
    heck::ToShoutySnakeCase::to_shouty_snake_case(s)
}

/// The semantic of a vertex attribute in a primitive.
#[derive(Clone, Debug)]
pub enum Semantic {
    Positions,
    Normals,
    Tangents,
    Colors(u32),
    TexCoords(u32),
    /// A custom attribute, under its name in shouty snake case.
    Extras(String),
}

/// A semantic with its custom name as a character sequence.
pub enum SemanticView {
    Positions,
    Normals,
    Tangents,
    Colors(u32),
    TexCoords(u32),
    Extras(Seq<char>),
}

pub open spec fn semantic_view(s: Semantic) -> SemanticView {
    match s {
        Semantic::Positions => SemanticView::Positions,
        Semantic::Normals => SemanticView::Normals,
        Semantic::Tangents => SemanticView::Tangents,
        Semantic::Colors(i) => SemanticView::Colors(i),
        Semantic::TexCoords(i) => SemanticView::TexCoords(i),
        Semantic::Extras(n) => SemanticView::Extras(n@),
    }
}

/// Topology type of a primitive.
#[derive(Clone, Copy, Debug, PartialEq, Eq, Structural)]
pub enum Mode {
    Triangles,
    Points,
}

/// Accessors of the displacements of one morph target.
#[derive(Clone, Copy, Debug, PartialEq, Eq, Structural)]
pub struct MorphTarget {
    pub positions: Option<usize>,
    pub normals: Option<usize>,
    pub tangents: Option<usize>,
}

/// A mesh primitive: attribute accessors by semantic, an optional index
/// accessor, an optional material, the topology type and the morph targets.
#[derive(Clone, Debug)]
pub struct Primitive {
    pub attributes: Vec<(Semantic, usize)>,
    pub indices: Option<usize>,
    pub material: Option<u32>,
    pub mode: Mode,
    pub targets: Option<Vec<MorphTarget>>,
}

/// The accessors written for the vertex attributes of a node: positions,
/// then each color attribute (`None` where its type was not a color
/// encoding), each texture coordinate attribute with its declared slot
/// (`None` where its component type was invalid), and each custom attribute
/// with its name.
#[derive(Clone, Debug)]
pub struct AttributeAccessors {
    pub position: usize,
    pub normal: Option<usize>,
    pub tangent: Option<usize>,
    pub colors: Vec<Option<usize>>,
    pub tex_coords: Vec<(u32, Option<usize>)>,
    pub custom: Vec<(String, usize)>,
}

/// The color semantics of the first `n` color attributes: the written ones
/// are numbered from zero in order.
pub open spec fn color_semantics(colors: Seq<Option<usize>>, n: nat) -> Seq<(SemanticView, usize)>
    decreases n,
{
    if n == 0 || n > colors.len() {
        Seq::empty()
    } else {
        let prev = color_semantics(colors, (n - 1) as nat);
        match colors[n - 1] {
            Some(a) => prev.push((SemanticView::Colors(prev.len() as u32), a)),
            None => prev,
        }
    }
}

/// The texture coordinate semantics of the first `n` texture coordinate
/// attributes: each written one under its declared slot.
pub open spec fn tex_semantics(tex: Seq<(u32, Option<usize>)>, n: nat) -> Seq<(SemanticView, usize)>
    decreases n,
{
    if n == 0 || n > tex.len() {
        Seq::empty()
    } else {
        let prev = tex_semantics(tex, (n - 1) as nat);
        match tex[n - 1].1 {
            Some(a) => prev.push((SemanticView::TexCoords(tex[n - 1].0), a)),
            None => prev,
        }
    }
}

/// The custom semantics: each custom attribute under its name in shouty snake case.
pub open spec fn custom_semantics(custom: Seq<(String, usize)>) -> Seq<(SemanticView, usize)> {
    Seq::new(custom.len(), |i: int| (SemanticView::Extras(shouty_snake_of(custom[i].0@)), custom[i].1))
}

/// An attribute that may be absent.
pub open spec fn optional_semantic(s: SemanticView, acc: Option<usize>) -> Seq<(SemanticView, usize)> {
    match acc {
        Some(a) => seq![(s, a)],
        None => Seq::empty(),
    }
}

/// The attribute map of a primitive.
pub open spec fn expected_attributes(a: AttributeAccessors) -> Seq<(SemanticView, usize)> {
    seq![(SemanticView::Positions, a.position)] + optional_semantic(SemanticView::Normals, a.normal)
        + optional_semantic(SemanticView::Tangents, a.tangent) + color_semantics(a.colors@, a.colors@.len())
        + tex_semantics(a.tex_coords@, a.tex_coords@.len()) + custom_semantics(a.custom@)
}

/// The attribute map as semantic views.
pub open spec fn attributes_view(attrs: Seq<(Semantic, usize)>) -> Seq<(SemanticView, usize)> {
    Seq::new(attrs.len(), |i: int| (semantic_view(attrs[i].0), attrs[i].1))
}

/// Whether an attribute map has few enough color attributes to number.
pub open spec fn attribute_counts_ok(a: AttributeAccessors) -> bool {
    a.colors@.len() <= u32::MAX
}

proof fn lemma_attributes_view_push(attrs: Seq<(Semantic, usize)>, x: (Semantic, usize))
    ensures
        attributes_view(attrs.push(x)) == attributes_view(attrs).push((semantic_view(x.0), x.1)),
{
    assert(attributes_view(attrs.push(x)) =~= attributes_view(attrs).push((semantic_view(x.0), x.1)));
}

proof fn lemma_color_semantics_len(colors: Seq<Option<usize>>, n: nat)
    requires
        n <= colors.len(),
    ensures
        color_semantics(colors, n).len() <= n,
    decreases n,
{
    if n > 0 {
        lemma_color_semantics_len(colors, (n - 1) as nat);
    }
}

/// Builds the attribute map of a primitive: positions, then colors
/// numbered in order, texture coordinates by slot, and custom attributes.
pub fn build_attributes(a: &AttributeAccessors) -> (r: Vec<(Semantic, usize)>)
    requires
        attribute_counts_ok(*a),
    ensures
        attributes_view(r@) == expected_attributes(*a),
{
    let mut r: Vec<(Semantic, usize)> = Vec::new();
    r.push((Semantic::Positions, a.position));
    match a.normal {
        Some(n) => r.push((Semantic::Normals, n)),
        None => {},
    }
    match a.tangent {
        Some(t) => r.push((Semantic::Tangents, t)),
        None => {},
    }
    let ghost head = seq![(SemanticView::Positions, a.position)] + optional_semantic(
        SemanticView::Normals,
        a.normal,
    ) + optional_semantic(SemanticView::Tangents, a.tangent);
    assert(attributes_view(r@) =~= head);
    let mut num_colors: u32 = 0;
    let mut i: usize = 0;
    while i < a.colors.len()
        invariant
            i <= a.colors@.len(),
            a.colors@.len() <= u32::MAX,
            attributes_view(r@) == head + color_semantics(a.colors@, i as nat),
            num_colors as nat == color_semantics(a.colors@, i as nat).len(),
        decreases a.colors@.len() - i,
    {
        proof {
            lemma_color_semantics_len(a.colors@, i as nat);
        }
        let ghost prev_r = r@;
        let ghost prev_cs = color_semantics(a.colors@, i as nat);
        match a.colors[i] {
            Some(acc) => {
                r.push((Semantic::Colors(num_colors), acc));
                num_colors = num_colors + 1;
                proof {
                    lemma_attributes_view_push(prev_r, (Semantic::Colors((num_colors - 1) as u32), acc));
                    assert(color_semantics(a.colors@, (i + 1) as nat) == prev_cs.push(
                        (SemanticView::Colors(prev_cs.len() as u32), acc),
                    ));
                    assert((head + prev_cs).push((SemanticView::Colors(prev_cs.len() as u32), acc))
                        =~= head + prev_cs.push((SemanticView::Colors(prev_cs.len() as u32), acc)));
                }
            },
            None => {
                assert(color_semantics(a.colors@, (i + 1) as nat) == prev_cs);
            },
        }
        i = i + 1;
    }
    let ghost with_colors = head + color_semantics(a.colors@, a.colors@.len());
    let mut i: usize = 0;
    while i < a.tex_coords.len()
        invariant
            i <= a.tex_coords@.len(),
            attributes_view(r@) == with_colors + tex_semantics(a.tex_coords@, i as nat),
        decreases a.tex_coords@.len() - i,
    {
        let (slot, acc) = a.tex_coords[i];
        let ghost prev_r = r@;
        let ghost prev_ts = tex_semantics(a.tex_coords@, i as nat);
        match acc {
            Some(acc) => {
                r.push((Semantic::TexCoords(slot), acc));
                proof {
                    lemma_attributes_view_push(prev_r, (Semantic::TexCoords(slot), acc));
                    assert(tex_semantics(a.tex_coords@, (i + 1) as nat) == prev_ts.push(
                        (SemanticView::TexCoords(slot), acc),
                    ));
                    assert((with_colors + prev_ts).push((SemanticView::TexCoords(slot), acc))
                        =~= with_colors + prev_ts.push((SemanticView::TexCoords(slot), acc)));
                }
            },
            None => {
                assert(tex_semantics(a.tex_coords@, (i + 1) as nat) == prev_ts);
            },
        }
        i = i + 1;
    }
    let ghost with_tex = with_colors + tex_semantics(a.tex_coords@, a.tex_coords@.len());
    let mut i: usize = 0;
    while i < a.custom.len()
        invariant
            i <= a.custom@.len(),
            attributes_view(r@) == with_tex + custom_semantics(a.custom@).take(i as int),
        decreases a.custom@.len() - i,
    {
        let name = shouty_snake_case(a.custom[i].0.as_str());
        let ghost prev_r = r@;
        let ghost x = (Semantic::Extras(name), a.custom[i as int].1);
        r.push((Semantic::Extras(name), a.custom[i].1));
        proof {
            lemma_attributes_view_push(prev_r, x);
            assert(custom_semantics(a.custom@).take(i + 1) =~= custom_semantics(a.custom@).take(
                i as int,
            ).push((semantic_view(x.0), x.1)));
            assert((with_tex + custom_semantics(a.custom@).take(i as int)).push(
                (semantic_view(x.0), x.1),
            ) =~= with_tex + custom_semantics(a.custom@).take(i as int).push(
                (semantic_view(x.0), x.1),
            ));
        }
        i = i + 1;
    }
    assert(custom_semantics(a.custom@).take(i as int) =~= custom_semantics(a.custom@));
    r
}

/// The material of a primitive whose faces have material `id`: that
/// material if the table has it, none otherwise.
pub open spec fn primitive_material(id: u32, num_materials: nat) -> Option<u32> {
    if id < num_materials {
        Some(id)
    } else {
        None
    }
}

/// The diagnostic logged for a material id missing from the material table.
pub open spec fn missing_material_message() -> Seq<char> {
    "Material ID was found but no materials were specified."@
}

/// The messages after logging one diagnostic for each of the first `n` ids
/// missing from a material table of `num_materials` entries.
pub open spec fn log_missing(v: Seq<(usize, Seq<char>)>, ids: Seq<u32>, n: nat, num_materials: nat) -> Seq<
    (usize, Seq<char>),
>
    decreases n,
{
    if n == 0 || n > ids.len() {
        v
    } else {
        let prev = log_missing(v, ids, (n - 1) as nat, num_materials);
        if ids[n - 1] < num_materials {
            prev
        } else {
            log_spec(prev, missing_material_message())
        }
    }
}

/// The material ids of the groups, in order.
pub open spec fn group_ids(g: MaterialGroups) -> Seq<u32> {
    Seq::new(g.spec_num_groups(), |k: int| g.spec_id(k))
}

/// Whether `p` is a primitive with the given attribute map, indices,
/// material, mode and morph targets.
pub open spec fn is_primitive(
    p: Primitive,
    a: AttributeAccessors,
    indices: Option<usize>,
    material: Option<u32>,
    mode: Mode,
    targets: Option<Vec<MorphTarget>>,
) -> bool {
    &&& attributes_view(p.attributes@) == expected_attributes(a)
    &&& p.indices == indices
    &&& p.material == material
    &&& p.mode == mode
    &&& match (p.targets, targets) {
        (None, None) => true,
        (Some(x), Some(y)) => x@ == y@,
        _ => false,
    }
}

fn copy_targets(t: &Option<Vec<MorphTarget>>) -> (r: Option<Vec<MorphTarget>>)
    ensures
        match (r, *t) {
            (None, None) => true,
            (Some(x), Some(y)) => x@ == y@,
            _ => false,
        },
{
    match t {
        None => None,
        Some(v) => {
            let mut out: Vec<MorphTarget> = Vec::new();
            let mut i: usize = 0;
            while i < v.len()
                invariant
                    i <= v@.len(),
                    out@ == v@.take(i as int),
                decreases v@.len() - i,
            {
                out.push(v[i]);
                i = i + 1;
                assert(out@ =~= v@.take(i as int));
            }
            assert(out@ =~= v@);
            Some(out)
        },
    }
}

/// Builds the primitives of a node.
///
/// A triangle mesh gets one primitive per index accessor: with material
/// groups, index accessor `k` belongs to group `k` and its primitive uses the
/// group's material when the material table has it, logging a diagnostic
/// otherwise; without material groups, primitives use the first material
/// when there is one. A point cloud gets one primitive without indices, which
/// uses the material of its first group, if any and if the table has it.
pub fn build_primitives(
    attrs: &AttributeAccessors,
    indices: Option<Vec<usize>>,
    groups: &Option<MaterialGroups>,
    targets: Option<Vec<MorphTarget>>,
    num_materials: usize,
    msgs: &mut Vec<(usize, String)>,
) -> (r: Vec<Primitive>)
    requires
        attribute_counts_ok(*attrs),
        indices.is_some() && groups.is_some() ==> indices.unwrap()@.len()
            == groups.unwrap().spec_num_groups(),
    ensures
        indices.is_none() ==> r@.len() == 1 && is_primitive(
            r@[0],
            *attrs,
            None,
            match *groups {
                Some(g) => primitive_material(
                    if g.spec_num_groups() > 0 {
                        g.spec_id(0)
                    } else {
                        0
                    },
                    num_materials as nat,
                ),
                None => None,
            },
            Mode::Points,
            targets,
        ) && final(msgs)@ == old(msgs)@,
        indices.is_some() ==> r@.len() == indices.unwrap()@.len() && forall|k: int|
            0 <= k < r@.len() ==> is_primitive(
                #[trigger] r@[k],
                *attrs,
                Some(indices.unwrap()@[k]),
                match *groups {
                    Some(g) => primitive_material(g.spec_id(k), num_materials as nat),
                    None => if num_materials > 0 {
                        Some(0u32)
                    } else {
                        None
                    },
                },
                Mode::Triangles,
                targets,
            ),
        indices.is_some() && groups.is_none() ==> final(msgs)@ == old(msgs)@,
        indices.is_some() && groups.is_some() ==> messages_view(final(msgs)@) == log_missing(
            messages_view(old(msgs)@),
            group_ids(groups.unwrap()),
            groups.unwrap().spec_num_groups(),
            num_materials as nat,
        ),
{
    let mut out: Vec<Primitive> = Vec::new();
    match indices {
        None => {
            let material = match groups {
                Some(g) => {
                    let id = if g.num_groups() > 0 {
                        g.id(0)
                    } else {
                        0
                    };
                    if (id as usize) < num_materials {
                        Some(id)
                    } else {
                        None
                    }
                },
                None => None,
            };
            out.push(
                Primitive {
                    attributes: build_attributes(attrs),
                    indices: None,
                    material,
                    mode: Mode::Points,
                    targets,
                },
            );
        },
        Some(ix) => {
            let mut k: usize = 0;
            while k < ix.len()
                invariant
                    k <= ix@.len(),
                    out@.len() == k,
                    attribute_counts_ok(*attrs),
                    groups.is_some() ==> ix@.len() == groups.unwrap().spec_num_groups(),
                    forall|j: int|
                        0 <= j < k ==> is_primitive(
                            #[trigger] out@[j],
                            *attrs,
                            Some(ix@[j]),
                            match *groups {
                                Some(g) => primitive_material(g.spec_id(j), num_materials as nat),
                                None => if num_materials > 0 {
                                    Some(0u32)
                                } else {
                                    None
                                },
                            },
                            Mode::Triangles,
                            targets,
                        ),
                    groups.is_none() ==> msgs@ == old(msgs)@,
                    groups.is_some() ==> messages_view(msgs@) == log_missing(
                        messages_view(old(msgs)@),
                        group_ids(groups.unwrap()),
                        k as nat,
                        num_materials as nat,
                    ),
                decreases ix@.len() - k,
            {
                let material = match groups {
                    Some(g) => {
                        let id = g.id(k);
                        if (id as usize) < num_materials {
                            Some(id)
                        } else {
                            let m = "Material ID was found but no materials were specified.".to_owned();
                            push_message(msgs, m);
                            None
                        }
                    },
                    None => if num_materials > 0 {
                        Some(0u32)
                    } else {
                        None
                    },
                };
                let ghost prev = out@;
                out.push(
                    Primitive {
                        attributes: build_attributes(attrs),
                        indices: Some(ix[k]),
                        material,
                        mode: Mode::Triangles,
                        targets: copy_targets(&targets),
                    },
                );
                assert forall|j: int| 0 <= j < k + 1 implies is_primitive(
                    #[trigger] out@[j],
                    *attrs,
                    Some(ix@[j]),
                    match *groups {
                        Some(g) => primitive_material(g.spec_id(j), num_materials as nat),
                        None => if num_materials > 0 {
                            Some(0u32)
                        } else {
                            None
                        },
                    },
                    Mode::Triangles,
                    targets,
                ) by {
                    if j < k {
                        assert(out@[j] == prev[j]);
                    }
                }
                k = k + 1;
            }
        },
    }
    out
}

} // verus!
