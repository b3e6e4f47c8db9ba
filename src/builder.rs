//! The binary buffer and the buffer view and accessor records describing it.
use vstd::prelude::*;

use crate::attrib::{
    MaterialGroups, component_size, is_color_type, is_tex_coord_component, Attribute, ComponentType, Shape,
    TextureAttribute,
};
use crate::config::{TIME_ATTRIB_NAME, WEIGHTS_ATTRIB_NAME};
use crate::bytes::{le_concat, lemma_le_concat_len, lemma_le_concat_push, push_le};

verus! {

/// Intended use of a buffer view.
#[derive(Clone, Copy, Debug, PartialEq, Eq, Structural)]
pub enum Target {
    /// Vertex attribute data.
    ArrayBuffer,
    /// Vertex indices.
    ElementArrayBuffer,
}

/// A contiguous range of the output buffer.
#[derive(Clone, Copy, Debug)]
pub struct BufferView {
    pub byte_length: usize,
    pub byte_offset: usize,
    pub byte_stride: Option<usize>,
    pub target: Option<Target>,
}

/// Sparse storage of an accessor: `count` values at the indices stored in one
/// view, with the values themselves stored in another.
#[derive(Clone, Copy, Debug)]
pub struct Sparse {
    pub count: usize,
    pub indices_view: usize,
    pub values_view: usize,
}

/// A typed view of the elements in a buffer view.
///
/// Bounds hold one entry per component: the value itself for integer
/// components and the bit pattern for `F32` components.
#[derive(Clone, Debug)]
pub struct Accessor {
    pub buffer_view: Option<usize>,
    pub count: usize,
    pub component_type: ComponentType,
    pub shape: Shape,
    pub min: Option<Vec<u32>>,
    pub max: Option<Vec<u32>>,
    pub name: Option<String>,
    pub sparse: Option<Sparse>,
}

/// First byte past the end of a view.
pub open spec fn view_end(v: BufferView) -> nat {
    (v.byte_offset + v.byte_length) as nat
}

/// Every view lies within the first `len` bytes, and views come in buffer
/// order without overlapping.
pub open spec fn views_ordered(views: Seq<BufferView>, len: nat) -> bool {
    &&& forall|i: int| 0 <= i < views.len() ==> #[trigger] view_end(views[i]) <= len
    &&& forall|i: int, j: int|
        0 <= i < j < views.len() ==> view_end(#[trigger] views[i]) <= #[trigger] views[j].byte_offset
}

/// One past the last view, or zero without views.
pub open spec fn views_end(views: Seq<BufferView>) -> nat {
    if views.len() == 0 {
        0
    } else {
        view_end(views.last())
    }
}

/// Each view starts where the previous one ends, the first at offset zero.
pub open spec fn views_adjacent(views: Seq<BufferView>) -> bool {
    &&& (views.len() > 0 ==> views[0].byte_offset == 0)
    &&& forall|i: int|
        0 <= i < views.len() - 1 ==> #[trigger] views[i + 1].byte_offset == view_end(views[i])
}

/// Every view that an accessor names exists.
pub open spec fn accessor_refs_ok(a: Accessor, num_views: nat) -> bool {
    &&& (a.buffer_view.is_some() ==> a.buffer_view.unwrap() < num_views)
    &&& (a.sparse.is_some() ==> a.sparse.unwrap().indices_view < num_views
        && a.sparse.unwrap().values_view < num_views)
}

/// Whether `m` is the least value of `s`, with `u32::MAX` standing for an
/// empty `s`.
pub open spec fn is_seq_min(m: u32, s: Seq<u32>) -> bool {
    &&& forall|k: int| 0 <= k < s.len() ==> m <= #[trigger] s[k]
    &&& (s.len() == 0 ==> m == u32::MAX)
    &&& (s.len() > 0 ==> s.contains(m))
}

/// Whether `m` is the greatest value of `s`, with `0` standing for an empty `s`.
pub open spec fn is_seq_max(m: u32, s: Seq<u32>) -> bool {
    &&& forall|k: int| 0 <= k < s.len() ==> #[trigger] s[k] <= m
    &&& (s.len() == 0 ==> m == 0)
    &&& (s.len() > 0 ==> s.contains(m))
}

/// The vertex indices of the listed faces, three per face, in order.
pub open spec fn face_index_stream(tri: Seq<[usize; 3]>, faces: Seq<usize>) -> Seq<u32>
    decreases faces.len(),
{
    if faces.len() == 0 {
        Seq::empty()
    } else {
        let f = tri[faces.last() as int];
        face_index_stream(tri, faces.drop_last()) + seq![f[0] as u32, f[1] as u32, f[2] as u32]
    }
}

/// Whether every listed face exists and every vertex index fits in 32 bits.
pub open spec fn faces_in_range(tri: Seq<[usize; 3]>, faces: Seq<usize>) -> bool {
    &&& forall|k: int| 0 <= k < faces.len() ==> #[trigger] faces[k] < tri.len()
    &&& forall|f: int|
        0 <= f < tri.len() ==> #[trigger] tri[f][0] <= u32::MAX && tri[f][1] <= u32::MAX
            && tri[f][2] <= u32::MAX
}

/// Whether `a` is the index accessor of the index stream `s` stored in view `view`.
pub open spec fn is_index_accessor(a: Accessor, view: nat, s: Seq<u32>) -> bool {
    &&& a.buffer_view == Some(view as usize)
    &&& a.count == s.len()
    &&& a.component_type == ComponentType::U32
    &&& a.shape == Shape::Scalar
    &&& a.name.is_none()
    &&& a.sparse.is_none()
    &&& a.min.is_some() && a.min.unwrap()@.len() == 1 && is_seq_min(a.min.unwrap()@[0], s)
    &&& a.max.is_some() && a.max.unwrap()@.len() == 1 && is_seq_max(a.max.unwrap()@[0], s)
}

pub proof fn lemma_face_index_stream_len(tri: Seq<[usize; 3]>, faces: Seq<usize>)
    ensures
        face_index_stream(tri, faces).len() == 3 * faces.len(),
    decreases faces.len(),
{
    if faces.len() > 0 {
        lemma_face_index_stream_len(tri, faces.drop_last());
    }
}

/// The lesser of two values.
pub open spec fn min_u32(a: u32, b: u32) -> u32 {
    if b < a { b } else { a }
}

/// The greater of two values.
pub open spec fn max_u32(a: u32, b: u32) -> u32 {
    if b > a { b } else { a }
}

fn lesser(a: u32, b: u32) -> (r: u32)
    ensures
        r == min_u32(a, b),
{
    if b < a { b } else { a }
}

fn greater(a: u32, b: u32) -> (r: u32)
    ensures
        r == max_u32(a, b),
{
    if b > a { b } else { a }
}

proof fn lemma_min_max_push(lo: u32, hi: u32, s: Seq<u32>, x: u32)
    requires
        is_seq_min(lo, s),
        is_seq_max(hi, s),
    ensures
        is_seq_min(min_u32(lo, x), s.push(x)),
        is_seq_max(max_u32(hi, x), s.push(x)),
{
    let t = s.push(x);
    assert(t[s.len() as int] == x);
    assert(forall|k: int| 0 <= k < s.len() ==> t[k] == s[k]);
    if s.len() > 0 {
        let i = choose|i: int| 0 <= i < s.len() && s[i] == lo;
        let j = choose|j: int| 0 <= j < s.len() && s[j] == hi;
        assert(t[i] == lo && t[j] == hi);
    }
}

/// The first two components of each of the first `n` elements of `width`
/// components each.
pub open spec fn uv_stream(vals: Seq<u32>, width: nat, n: nat) -> Seq<u32>
    decreases n,
{
    if n == 0 {
        Seq::empty()
    } else {
        let b = (n - 1) * width;
        uv_stream(vals, width, (n - 1) as nat) + seq![vals[b], vals[b + 1]]
    }
}

/// The components of 3D vectors, in order.
pub open spec fn vec3_stream(vals: Seq<[u32; 3]>) -> Seq<u32>
    decreases vals.len(),
{
    if vals.len() == 0 {
        Seq::empty()
    } else {
        let v = vals.last();
        vec3_stream(vals.drop_last()) + seq![v[0], v[1], v[2]]
    }
}

/// Whether `a` describes `count` elements of a named vertex attribute with
/// the given component type and shape stored in view `view`, without bounds.
pub open spec fn is_attribute_accessor(
    a: Accessor,
    view: nat,
    count: nat,
    c: ComponentType,
    shape: Shape,
    name: Seq<char>,
) -> bool {
    &&& a.buffer_view == Some(view as usize)
    &&& a.count == count
    &&& a.component_type == c
    &&& a.shape == shape
    &&& a.name.is_some() && a.name.unwrap()@ == name
    &&& a.min.is_none() && a.max.is_none()
    &&& a.sparse.is_none()
}

/// The output buffer together with the views and accessors appended so far.
pub struct DocumentBuilder {
    data: Vec<u8>,
    views: Vec<BufferView>,
    accessors: Vec<Accessor>,
}

impl DocumentBuilder {
    /// The bytes of the buffer.
    pub closed spec fn bytes(&self) -> Seq<u8> {
        self.data@
    }

    /// The buffer views, in the order they were appended.
    pub closed spec fn view_seq(&self) -> Seq<BufferView> {
        self.views@
    }

    /// The accessors, in the order they were appended.
    pub closed spec fn accessor_seq(&self) -> Seq<Accessor> {
        self.accessors@
    }

    /// Views cover a prefix of the buffer one after another, in order and
    /// without overlapping, and accessors name existing views.
    pub open spec fn wf_open(&self) -> bool {
        &&& views_ordered(self.view_seq(), views_end(self.view_seq()))
        &&& views_adjacent(self.view_seq())
        &&& views_end(self.view_seq()) <= self.bytes().len()
        &&& forall|i: int|
            0 <= i < self.accessor_seq().len() ==> accessor_refs_ok(
                #[trigger] self.accessor_seq()[i],
                self.view_seq().len(),
            )
    }

    /// Views cover the whole buffer one after another: each view holds
    /// exactly the bytes written for it, and accessors name existing views.
    pub open spec fn wf(&self) -> bool {
        &&& self.wf_open()
        &&& views_end(self.view_seq()) == self.bytes().len()
    }

    /// An empty buffer with no views and no accessors.
    pub fn new() -> (r: DocumentBuilder)
        ensures
            r.wf(),
            r.bytes().len() == 0,
            r.view_seq().len() == 0,
            r.accessor_seq().len() == 0,
    {
        DocumentBuilder { data: Vec::new(), views: Vec::new(), accessors: Vec::new() }
    }

    /// The bytes of the buffer.
    pub fn data(&self) -> (r: &Vec<u8>)
        ensures
            r@ == self.bytes(),
    {
        &self.data
    }

    /// The buffer views.
    pub fn views(&self) -> (r: &Vec<BufferView>)
        ensures
            r@ == self.view_seq(),
    {
        &self.views
    }

    /// The accessors.
    pub fn accessors(&self) -> (r: &Vec<Accessor>)
        ensures
            r@ == self.accessor_seq(),
    {
        &self.accessors
    }

    /// Number of accessors appended so far.
    pub fn num_accessors(&self) -> (r: usize)
        ensures
            r == self.accessor_seq().len(),
    {
        self.accessors.len()
    }

    /// Takes the buffer, the views and the accessors out of the builder.
    pub fn into_parts(self) -> (r: (Vec<u8>, Vec<BufferView>, Vec<Accessor>))
        ensures
            r.0@ == self.bytes(),
            r.1@ == self.view_seq(),
            r.2@ == self.accessor_seq(),
    {
        (self.data, self.views, self.accessors)
    }

    /// Appends a view over the bytes from `start` to the current end of the buffer.
    fn close_view(&mut self, start: usize, stride: Option<usize>, target: Option<Target>) -> (idx:
        usize)
        requires
            old(self).wf_open(),
            start == views_end(old(self).view_seq()),
        ensures
            final(self).wf(),
            idx == old(self).view_seq().len(),
            final(self).bytes() == old(self).bytes(),
            final(self).accessor_seq() == old(self).accessor_seq(),
            final(self).view_seq() == old(self).view_seq().push(
                BufferView {
                    byte_length: (old(self).bytes().len() - start) as usize,
                    byte_offset: start,
                    byte_stride: stride,
                    target,
                },
            ),
    {
        let view = BufferView {
            byte_length: self.data.len() - start,
            byte_offset: start,
            byte_stride: stride,
            target,
        };
        let idx = self.views.len();
        let ghost ov = self.views@;
        self.views.push(view);
        assert forall|i: int| 0 <= i < ov.len() implies #[trigger] view_end(ov[i]) <= start by {}
        assert forall|i: int| 0 <= i < self.views@.len() - 1 implies #[trigger] self.views@[i
            + 1].byte_offset == view_end(self.views@[i]) by {
            if i + 1 < ov.len() {
                assert(ov[i + 1].byte_offset == view_end(ov[i]));
            }
        }
        assert forall|i: int|
            0 <= i < self.accessor_seq().len() implies accessor_refs_ok(
            #[trigger] self.accessor_seq()[i],
            self.view_seq().len(),
        ) by {
            assert(accessor_refs_ok(old(self).accessor_seq()[i], old(self).view_seq().len()));
        }
        idx
    }

    /// Appends an accessor and returns its index.
    fn add_accessor(&mut self, a: Accessor) -> (idx: usize)
        requires
            old(self).wf(),
            accessor_refs_ok(a, old(self).view_seq().len() as nat),
        ensures
            final(self).wf(),
            idx == old(self).accessor_seq().len(),
            final(self).bytes() == old(self).bytes(),
            final(self).view_seq() == old(self).view_seq(),
            final(self).accessor_seq() == old(self).accessor_seq().push(a),
    {
        let idx = self.accessors.len();
        self.accessors.push(a);
        assert forall|i: int|
            0 <= i < self.accessor_seq().len() implies accessor_refs_ok(
            #[trigger] self.accessor_seq()[i],
            self.view_seq().len(),
        ) by {
            if i < idx {
                assert(self.accessor_seq()[i] == old(self).accessor_seq()[i]);
            }
        }
        idx
    }

    /// Writes the vertex indices of the listed faces as little-endian `u32`
    /// values into a new element array view, and appends a scalar `U32`
    /// accessor over them with their least and greatest value as bounds.
    pub fn push_indices(&mut self, tri: &Vec<[usize; 3]>, faces: &Vec<usize>) -> (idx: usize)
        requires
            old(self).wf(),
            faces_in_range(tri@, faces@),
        ensures
            final(self).wf(),
            final(self).bytes() == old(self).bytes() + le_concat(
                face_index_stream(tri@, faces@),
                4,
            ),
            final(self).view_seq() == old(self).view_seq().push(
                BufferView {
                    byte_length: (12 * faces.len()) as usize,
                    byte_offset: old(self).bytes().len() as usize,
                    byte_stride: None,
                    target: Some(Target::ElementArrayBuffer),
                },
            ),
            idx == old(self).accessor_seq().len(),
            final(self).accessor_seq().len() == idx + 1,
            final(self).accessor_seq().take(idx as int) == old(self).accessor_seq(),
            is_index_accessor(
                final(self).accessor_seq()[idx as int],
                old(self).view_seq().len() as nat,
                face_index_stream(tri@, faces@),
            ),
    {
        let start = self.data.len();
        let ghost stream: Seq<u32> = Seq::empty();
        let mut min_index: u32 = u32::MAX;
        let mut max_index: u32 = 0;
        let mut i: usize = 0;
        while i < faces.len()
            invariant
                self.wf_open(),
                views_end(self.view_seq()) == start,
                faces_in_range(tri@, faces@),
                i <= faces.len(),
                start == old(self).bytes().len(),
                stream == face_index_stream(tri@, faces@.take(i as int)),
                self.bytes() == old(self).bytes() + le_concat(stream, 4),
                self.view_seq() == old(self).view_seq(),
                self.accessor_seq() == old(self).accessor_seq(),
                is_seq_min(min_index, stream),
                is_seq_max(max_index, stream),
            decreases faces.len() - i,
        {
            let f = tri[faces[i]];
            let a = f[0] as u32;
            let b = f[1] as u32;
            let c = f[2] as u32;
            let ghost prev_stream = stream;
            push_le(&mut self.data, a, 4);
            push_le(&mut self.data, b, 4);
            push_le(&mut self.data, c, 4);
            proof {
                lemma_le_concat_push(stream, a, 4);
                lemma_le_concat_push(stream.push(a), b, 4);
                lemma_le_concat_push(stream.push(a).push(b), c, 4);
                assert(faces@.take(i + 1).drop_last() =~= faces@.take(i as int));
                assert(stream.push(a).push(b).push(c) =~= stream + seq![a, b, c]);
                stream = stream.push(a).push(b).push(c);
            }
            proof {
                lemma_min_max_push(min_index, max_index, prev_stream, a);
                lemma_min_max_push(
                    min_u32(min_index, a),
                    max_u32(max_index, a),
                    prev_stream.push(a),
                    b,
                );
                lemma_min_max_push(
                    min_u32(min_u32(min_index, a), b),
                    max_u32(max_u32(max_index, a), b),
                    prev_stream.push(a).push(b),
                    c,
                );
            }
            min_index = lesser(lesser(lesser(min_index, a), b), c);
            max_index = greater(greater(greater(max_index, a), b), c);
            i = i + 1;
        }
        proof {
            assert(faces@.take(i as int) =~= faces@);
            lemma_face_index_stream_len(tri@, faces@);
            lemma_le_concat_len(stream, 4);
        }
        let end = self.data.len();
        assert(end == start + 12 * faces.len());
        let view = self.close_view(start, None, Some(Target::ElementArrayBuffer));
        let mut min_v: Vec<u32> = Vec::new();
        min_v.push(min_index);
        let mut max_v: Vec<u32> = Vec::new();
        max_v.push(max_index);
        let acc = Accessor {
            buffer_view: Some(view),
            count: 3 * faces.len(),
            component_type: ComponentType::U32,
            shape: Shape::Scalar,
            min: Some(min_v),
            max: Some(max_v),
            name: None,
            sparse: None,
        };
        let idx = self.add_accessor(acc);
        assert(self.accessor_seq().take(idx as int) =~= old(self).accessor_seq());
        idx
    }

    /// Writes each value as `width` little-endian bytes.
    fn write_values(&mut self, vals: &Vec<u32>, width: usize)
        requires
            old(self).wf_open(),
            crate::bytes::valid_width(width as nat),
        ensures
            final(self).wf_open(),
            final(self).bytes() == old(self).bytes() + le_concat(vals@, width as nat),
            final(self).view_seq() == old(self).view_seq(),
            final(self).accessor_seq() == old(self).accessor_seq(),
    {
        let mut i: usize = 0;
        while i < vals.len()
            invariant
                self.wf_open(),
                crate::bytes::valid_width(width as nat),
                i <= vals.len(),
                self.bytes() == old(self).bytes() + le_concat(vals@.take(i as int), width as nat),
                self.view_seq() == old(self).view_seq(),
                self.accessor_seq() == old(self).accessor_seq(),
            decreases vals.len() - i,
        {
            proof {
                lemma_le_concat_push(vals@.take(i as int), vals@[i as int], width as nat);
                assert(vals@.take(i as int).push(vals@[i as int]) =~= vals@.take(i + 1));
            }
            push_le(&mut self.data, vals[i], width);
            i = i + 1;
        }
        assert(vals@.take(i as int) =~= vals@);
    }

    /// Writes the values of a vertex attribute into a new vertex data view
    /// with the element size as stride, and appends a named accessor over
    /// its elements.
    pub fn push_attribute(&mut self, attrib: &Attribute) -> (idx: usize)
        requires
            old(self).wf(),
            attrib.wf(),
        ensures
            final(self).wf(),
            final(self).bytes() == old(self).bytes() + le_concat(
                attrib.values@,
                component_size(attrib.type_.spec_component()),
            ),
            final(self).view_seq() == old(self).view_seq().push(
                BufferView {
                    byte_length: (final(self).bytes().len() - old(self).bytes().len()) as usize,
                    byte_offset: old(self).bytes().len() as usize,
                    byte_stride: Some(attrib.type_.spec_element_size() as usize),
                    target: Some(Target::ArrayBuffer),
                },
            ),
            idx == old(self).accessor_seq().len(),
            final(self).accessor_seq().len() == idx + 1,
            final(self).accessor_seq().take(idx as int) == old(self).accessor_seq(),
            is_attribute_accessor(
                final(self).accessor_seq()[idx as int],
                old(self).view_seq().len() as nat,
                attrib.spec_len(),
                attrib.type_.spec_component(),
                attrib.type_.spec_shape(),
                attrib.name@,
            ),
    {
        let start = self.data.len();
        let c = attrib.type_.component_type();
        let n = attrib.type_.num_components();
        self.write_values(&attrib.values, c.byte_size());
        let view = self.close_view(start, Some(attrib.type_.element_size()), Some(Target::ArrayBuffer));
        let acc = Accessor {
            buffer_view: Some(view),
            count: attrib.values.len() / n,
            component_type: c,
            shape: attrib.type_.shape(),
            min: None,
            max: None,
            name: Some(attrib.name.clone()),
            sparse: None,
        };
        let idx = self.add_accessor(acc);
        assert(self.accessor_seq().take(idx as int) =~= old(self).accessor_seq());
        idx
    }

    /// Writes a color attribute as [`push_attribute`](Self::push_attribute)
    /// does, if its type is a supported color encoding; otherwise changes
    /// nothing and returns `None`.
    pub fn push_color_attribute(&mut self, attrib: &Attribute) -> (r: Option<usize>)
        requires
            old(self).wf(),
            attrib.wf(),
        ensures
            final(self).wf(),
            r.is_some() <==> is_color_type(attrib.type_),
            r.is_none() ==> final(self).bytes() == old(self).bytes() && final(self).view_seq()
                == old(self).view_seq() && final(self).accessor_seq() == old(self).accessor_seq(),
            r.is_some() ==> {
                &&& r.unwrap() == old(self).accessor_seq().len()
                &&& final(self).bytes() == old(self).bytes() + le_concat(
                    attrib.values@,
                    component_size(attrib.type_.spec_component()),
                )
                &&& final(self).view_seq().len() == old(self).view_seq().len() + 1
                &&& final(self).view_seq().last().byte_stride == Some(
                    attrib.type_.spec_element_size() as usize,
                )
                &&& final(self).accessor_seq().len() == r.unwrap() + 1
                &&& final(self).accessor_seq().take(r.unwrap() as int) == old(self).accessor_seq()
                &&& is_attribute_accessor(
                    final(self).accessor_seq()[r.unwrap() as int],
                    old(self).view_seq().len() as nat,
                    attrib.spec_len(),
                    attrib.type_.spec_component(),
                    attrib.type_.spec_shape(),
                    attrib.name@,
                )
            },
    {
        match crate::attrib::color_element_size(attrib.type_) {
            None => None,
            Some(_) => Some(self.push_attribute(attrib)),
        }
    }

    /// Writes the first two components of each texture coordinate into a new
    /// vertex data view and appends a named `Vec2` accessor over them, if the
    /// component type is valid for texture coordinates; otherwise changes
    /// nothing and returns `None`.
    pub fn push_tex_attribute(&mut self, attrib: &TextureAttribute) -> (r: Option<usize>)
        requires
            old(self).wf(),
            attrib.wf(),
        ensures
            final(self).wf(),
            r.is_some() <==> is_tex_coord_component(attrib.component_type),
            r.is_none() ==> final(self).bytes() == old(self).bytes() && final(self).view_seq()
                == old(self).view_seq() && final(self).accessor_seq() == old(self).accessor_seq(),
            r.is_some() ==> {
                &&& r.unwrap() == old(self).accessor_seq().len()
                &&& final(self).bytes() == old(self).bytes() + le_concat(
                    uv_stream(attrib.values@, attrib.width as nat, attrib.spec_len()),
                    component_size(attrib.component_type),
                )
                &&& final(self).view_seq() == old(self).view_seq().push(
                    BufferView {
                        byte_length: (2 * component_size(attrib.component_type)
                            * attrib.spec_len()) as usize,
                        byte_offset: old(self).bytes().len() as usize,
                        byte_stride: Some((2 * component_size(attrib.component_type)) as usize),
                        target: Some(Target::ArrayBuffer),
                    },
                )
                &&& final(self).accessor_seq().len() == r.unwrap() + 1
                &&& final(self).accessor_seq().take(r.unwrap() as int) == old(self).accessor_seq()
                &&& is_attribute_accessor(
                    final(self).accessor_seq()[r.unwrap() as int],
                    old(self).view_seq().len() as nat,
                    attrib.spec_len(),
                    attrib.component_type,
                    Shape::Vec2,
                    attrib.name@,
                )
            },
    {
        let stride = match crate::attrib::tex_coord_element_size(attrib.component_type) {
            None => { return None; },
            Some(s) => s,
        };
        let width = attrib.component_type.byte_size();
        let w = attrib.width;
        let count = attrib.values.len() / w;
        let start = self.data.len();
        let ghost stream: Seq<u32> = Seq::empty();
        let mut i: usize = 0;
        let mut base: usize = 0;
        proof {
            assert(count * w <= attrib.values@.len()) by (nonlinear_arith)
                requires count == attrib.values@.len() as int / (w as int), w > 0;
        }
        while i < count
            invariant
                self.wf_open(),
                views_end(self.view_seq()) == start,
                attrib.wf(),
                w == attrib.width,
                width == component_size(attrib.component_type),
                crate::bytes::valid_width(width as nat),
                count == attrib.spec_len(),
                count * w <= attrib.values@.len(),
                attrib.values@.len() <= usize::MAX,
                i <= count,
                base == i * w,
                start == old(self).bytes().len(),
                stream == uv_stream(attrib.values@, w as nat, i as nat),
                self.bytes() == old(self).bytes() + le_concat(stream, width as nat),
                self.view_seq() == old(self).view_seq(),
                self.accessor_seq() == old(self).accessor_seq(),
            decreases count - i,
        {
            proof {
                assert((i + 1) * w == i * w + w) by (nonlinear_arith);
                assert((i + 1) * w <= count * w) by (nonlinear_arith)
                    requires i < count;
            }
            let a = attrib.values[base];
            let b = attrib.values[base + 1];
            push_le(&mut self.data, a, width);
            push_le(&mut self.data, b, width);
            proof {
                lemma_le_concat_push(stream, a, width as nat);
                lemma_le_concat_push(stream.push(a), b, width as nat);
                assert(stream.push(a).push(b) =~= stream + seq![a, b]);
                stream = stream.push(a).push(b);
            }
            base = base + w;
            i = i + 1;
        }
        proof {
            lemma_uv_stream_len(attrib.values@, w as nat, count as nat);
            lemma_le_concat_len(stream, width as nat);
        }
        let end = self.data.len();
        assert(end == start + 2 * width * count) by (nonlinear_arith)
            requires end == start + (2 * count) * width;
        let view = self.close_view(start, Some(stride), Some(Target::ArrayBuffer));
        let acc = Accessor {
            buffer_view: Some(view),
            count,
            component_type: attrib.component_type,
            shape: Shape::Vec2,
            min: None,
            max: None,
            name: Some(attrib.name.clone()),
            sparse: None,
        };
        let idx = self.add_accessor(acc);
        assert(self.accessor_seq().take(idx as int) =~= old(self).accessor_seq());
        Some(idx)
    }

    /// Writes 3D vectors of `F32` bit patterns into a new vertex data view
    /// with a 12 byte stride, and appends a `Vec3` accessor over them with
    /// the given bounds, named `name` unless `name` is empty.
    pub fn push_vec3(&mut self, vals: &Vec<[u32; 3]>, min: [u32; 3], max: [u32; 3], name: &str) -> (idx:
        usize)
        requires
            old(self).wf(),
        ensures
            final(self).wf(),
            final(self).bytes() == old(self).bytes() + le_concat(vec3_stream(vals@), 4),
            final(self).view_seq() == old(self).view_seq().push(
                BufferView {
                    byte_length: (12 * vals.len()) as usize,
                    byte_offset: old(self).bytes().len() as usize,
                    byte_stride: Some(12),
                    target: Some(Target::ArrayBuffer),
                },
            ),
            idx == old(self).accessor_seq().len(),
            final(self).accessor_seq().len() == idx + 1,
            final(self).accessor_seq().take(idx as int) == old(self).accessor_seq(),
            is_vec3_accessor(
                final(self).accessor_seq()[idx as int],
                old(self).view_seq().len() as nat,
                vals.len() as nat,
                min,
                max,
                name@,
            ),
    {
        let start = self.data.len();
        let ghost stream: Seq<u32> = Seq::empty();
        let mut i: usize = 0;
        while i < vals.len()
            invariant
                self.wf_open(),
                views_end(self.view_seq()) == start,
                i <= vals.len(),
                start == old(self).bytes().len(),
                stream == vec3_stream(vals@.take(i as int)),
                self.bytes() == old(self).bytes() + le_concat(stream, 4),
                self.view_seq() == old(self).view_seq(),
                self.accessor_seq() == old(self).accessor_seq(),
            decreases vals.len() - i,
        {
            let v = vals[i];
            push_le(&mut self.data, v[0], 4);
            push_le(&mut self.data, v[1], 4);
            push_le(&mut self.data, v[2], 4);
            proof {
                lemma_le_concat_push(stream, v[0], 4);
                lemma_le_concat_push(stream.push(v[0]), v[1], 4);
                lemma_le_concat_push(stream.push(v[0]).push(v[1]), v[2], 4);
                assert(vals@.take(i + 1).drop_last() =~= vals@.take(i as int));
                assert(stream.push(v[0]).push(v[1]).push(v[2]) =~= stream + seq![v[0], v[1], v[2]]);
                stream = stream.push(v[0]).push(v[1]).push(v[2]);
            }
            i = i + 1;
        }
        proof {
            assert(vals@.take(i as int) =~= vals@);
            lemma_vec3_stream_len(vals@);
            lemma_le_concat_len(stream, 4);
        }
        let end = self.data.len();
        assert(end == start + 12 * vals.len());
        let view = self.close_view(start, Some(12), Some(Target::ArrayBuffer));
        let mut lo: Vec<u32> = Vec::new();
        lo.push(min[0]);
        lo.push(min[1]);
        lo.push(min[2]);
        let mut hi: Vec<u32> = Vec::new();
        hi.push(max[0]);
        hi.push(max[1]);
        hi.push(max[2]);
        let acc_name = if name.is_empty() {
            None
        } else {
            Some(name.to_owned())
        };
        let acc = Accessor {
            buffer_view: Some(view),
            count: vals.len(),
            component_type: ComponentType::F32,
            shape: Shape::Vec3,
            min: Some(lo),
            max: Some(hi),
            name: acc_name,
            sparse: None,
        };
        let idx = self.add_accessor(acc);
        assert(self.accessor_seq().take(idx as int) =~= old(self).accessor_seq());
        assert(self.accessor_seq()[idx as int].min.unwrap()@ =~= min@);
        assert(self.accessor_seq()[idx as int].max.unwrap()@ =~= max@);
        idx
    }
}

pub proof fn lemma_uv_stream_len(vals: Seq<u32>, width: nat, n: nat)
    ensures
        uv_stream(vals, width, n).len() == 2 * n,
    decreases n,
{
    if n > 0 {
        lemma_uv_stream_len(vals, width, (n - 1) as nat);
    }
}

pub proof fn lemma_vec3_stream_len(vals: Seq<[u32; 3]>)
    ensures
        vec3_stream(vals).len() == 3 * vals.len(),
    decreases vals.len(),
{
    if vals.len() > 0 {
        lemma_vec3_stream_len(vals.drop_last());
    }
}

/// Whether `a` describes `count` `F32` 3D vectors stored in view `view`,
/// with the given bounds, named `name` unless `name` is empty.
pub open spec fn is_vec3_accessor(
    a: Accessor,
    view: nat,
    count: nat,
    min: [u32; 3],
    max: [u32; 3],
    name: Seq<char>,
) -> bool {
    &&& a.buffer_view == Some(view as usize)
    &&& a.count == count
    &&& a.component_type == ComponentType::F32
    &&& a.shape == Shape::Vec3
    &&& a.min.is_some() && a.min.unwrap()@ == min@
    &&& a.max.is_some() && a.max.unwrap()@ == max@
    &&& (name.len() == 0 ==> a.name.is_none())
    &&& (name.len() > 0 ==> a.name.is_some() && a.name.unwrap()@ == name)
    &&& a.sparse.is_none()
}

/// Bit pattern of the `f32` value one.
pub const F32_ONE_BITS: u32 = 0x3f80_0000;

/// Flat index, in a dense array of `k` weights per time sample, of the
/// weight of morph target `i` at time sample `i + 1`.
pub open spec fn sparse_weight_index(k: nat, i: nat) -> nat {
    k * (i + 1) + i
}

/// The stored indices of the sparse weights of `k` morph targets. A leading
/// vanishing frame is the first target and comes first in time, so its
/// weight is at index zero.
pub open spec fn sparse_weight_indices(k: nat, leading_vanish: bool) -> Seq<u32> {
    Seq::new(
        k,
        |i: int|
            if leading_vanish && i == 0 {
                0u32
            } else {
                sparse_weight_index(k, i as nat) as u32
            },
    )
}

/// Time samples in chronological order, from the time of the base frame
/// followed by the time of each morph frame; a leading vanishing frame comes
/// before the base frame.
pub open spec fn time_samples(times: Seq<u32>, leading_vanish: bool) -> Seq<u32> {
    if leading_vanish {
        seq![times[1], times[0]] + times.subrange(2, times.len() as int)
    } else {
        times
    }
}

/// Whether `a` is the sparse weights accessor of `k` morph targets: `k + 1`
/// samples of `k` weights, all zero but the `k` values in view `values_view`
/// at the indices in view `indices_view`.
pub open spec fn is_weights_accessor(a: Accessor, k: nat, indices_view: nat, values_view: nat) -> bool {
    &&& a.buffer_view.is_none()
    &&& a.count == (k + 1) * k
    &&& a.component_type == ComponentType::F32
    &&& a.shape == Shape::Scalar
    &&& a.min.is_some() && a.min.unwrap()@ == seq![0u32]
    &&& a.max.is_some() && a.max.unwrap()@ == seq![F32_ONE_BITS]
    &&& a.name.is_some() && a.name.unwrap()@ == WEIGHTS_ATTRIB_NAME@
    &&& a.sparse == Some(
        Sparse { count: k as usize, indices_view: indices_view as usize, values_view: values_view as usize },
    )
}

/// Whether `a` is the keyframe time accessor of the samples `s` in view `view`.
pub open spec fn is_time_accessor(a: Accessor, view: nat, s: Seq<u32>) -> bool {
    &&& a.buffer_view == Some(view as usize)
    &&& a.count == s.len()
    &&& a.component_type == ComponentType::F32
    &&& a.shape == Shape::Scalar
    &&& a.min.is_some() && a.min.unwrap()@ == seq![s[0]]
    &&& a.max.is_some() && a.max.unwrap()@ == seq![s.last()]
    &&& a.name.is_some() && a.name.unwrap()@ == TIME_ATTRIB_NAME@
    &&& a.sparse.is_none()
}

/// Accessor indices of an animation: the keyframe times and the weights.
#[derive(Clone, Copy, Debug)]
pub struct AnimationAccessors {
    pub time: usize,
    pub weights: usize,
}

/// A vector holding `k` copies of `v`.
fn repeat_u32(v: u32, k: usize) -> (r: Vec<u32>)
    ensures
        r@ == Seq::new(k as nat, |i: int| v),
{
    let mut r: Vec<u32> = Vec::new();
    let mut i: usize = 0;
    while i < k
        invariant
            i <= k,
            r@ == Seq::new(i as nat, |j: int| v),
        decreases k - i,
    {
        r.push(v);
        i = i + 1;
        assert(r@ =~= Seq::new(i as nat, |j: int| v));
    }
    r
}

/// The sparse weight indices of `k` morph targets.
fn weight_indices(k: usize, leading_vanish: bool) -> (r: Vec<u32>)
    requires
        k * (k + 1) <= u32::MAX,
    ensures
        r@ == sparse_weight_indices(k as nat, leading_vanish),
{
    let mut r: Vec<u32> = Vec::new();
    let mut i: usize = 0;
    while i < k
        invariant
            i <= k,
            k * (k + 1) <= u32::MAX,
            r@ == sparse_weight_indices(k as nat, leading_vanish).take(i as int),
        decreases k - i,
    {
        if leading_vanish && i == 0 {
            r.push(0);
        } else {
            assert(k * (i + 1) + i < k * (k + 1)) by (nonlinear_arith)
                requires i < k;
            r.push((k * (i + 1) + i) as u32);
        }
        i = i + 1;
        assert(r@ =~= sparse_weight_indices(k as nat, leading_vanish).take(i as int));
    }
    assert(r@ =~= sparse_weight_indices(k as nat, leading_vanish));
    r
}

/// The time samples in chronological order.
fn ordered_times(times: &Vec<u32>, leading_vanish: bool) -> (r: Vec<u32>)
    requires
        times.len() >= 1,
        leading_vanish ==> times.len() >= 2,
    ensures
        r@ == time_samples(times@, leading_vanish),
{
    if !leading_vanish {
        return times.clone();
    }
    let mut r: Vec<u32> = Vec::new();
    r.push(times[1]);
    r.push(times[0]);
    let mut i: usize = 2;
    while i < times.len()
        invariant
            2 <= i <= times.len(),
            r@ == seq![times@[1], times@[0]] + times@.subrange(2, i as int),
        decreases times.len() - i,
    {
        r.push(times[i]);
        i = i + 1;
        assert(r@ =~= seq![times@[1], times@[0]] + times@.subrange(2, i as int));
    }
    r
}

impl DocumentBuilder {
    /// Builds the animation of a node with `times.len() - 1` morph targets,
    /// where `times` holds the bit pattern of the base frame's time followed by
    /// that of each morph frame. Returns `None`, changing nothing, when there
    /// is no morph target.
    ///
    /// Otherwise writes, each into a view of its own, the sparse weight
    /// indices, one weight of one per target, and the time samples in
    /// chronological order; then appends the sparse weights accessor and the
    /// time accessor, whose bounds are the first and last samples.
    pub fn build_animation(&mut self, times: &Vec<u32>, leading_vanish: bool) -> (r: Option<AnimationAccessors>)
        requires
            old(self).wf(),
            times.len() >= 1,
            leading_vanish ==> times.len() >= 2,
            (times.len() - 1) * times.len() <= u32::MAX,
        ensures
            final(self).wf(),
            r.is_none() <==> times.len() == 1,
            r.is_none() ==> final(self).bytes() == old(self).bytes() && final(self).view_seq()
                == old(self).view_seq() && final(self).accessor_seq() == old(self).accessor_seq(),
            r.is_some() ==> {
                let k = (times.len() - 1) as nat;
                let nv = old(self).view_seq().len();
                let na = old(self).accessor_seq().len();
                &&& final(self).bytes() == old(self).bytes() + le_concat(
                    sparse_weight_indices(k, leading_vanish),
                    4,
                ) + le_concat(Seq::new(k, |i: int| F32_ONE_BITS), 4) + le_concat(
                    time_samples(times@, leading_vanish),
                    4,
                )
                &&& final(self).view_seq() == old(self).view_seq() + seq![
                    BufferView {
                        byte_length: (4 * k) as usize,
                        byte_offset: old(self).bytes().len() as usize,
                        byte_stride: None,
                        target: None,
                    },
                    BufferView {
                        byte_length: (4 * k) as usize,
                        byte_offset: (old(self).bytes().len() + 4 * k) as usize,
                        byte_stride: None,
                        target: None,
                    },
                    BufferView {
                        byte_length: (4 * (k + 1)) as usize,
                        byte_offset: (old(self).bytes().len() + 8 * k) as usize,
                        byte_stride: None,
                        target: None,
                    },
                ]
                &&& r.unwrap().weights == na
                &&& r.unwrap().time == na + 1
                &&& final(self).accessor_seq().len() == na + 2
                &&& final(self).accessor_seq().take(na as int) == old(self).accessor_seq()
                &&& is_weights_accessor(final(self).accessor_seq()[na as int], k, nv, nv + 1)
                &&& is_time_accessor(
                    final(self).accessor_seq()[na + 1int],
                    nv + 2,
                    time_samples(times@, leading_vanish),
                )
            },
    {
        let k = times.len() - 1;
        if k == 0 {
            return None;
        }
        let nv = self.views.len();
        let na = self.accessors.len();
        let ghost b0 = self.bytes();
        let ghost v0 = self.view_seq();
        let ghost a0 = self.accessor_seq();

        let indices = weight_indices(k, leading_vanish);
        let start = self.data.len();
        self.write_values(&indices, 4);
        proof {
            lemma_le_concat_len(indices@, 4);
        }
        let indices_view = self.close_view(start, None, None);

        let ones = repeat_u32(F32_ONE_BITS, k);
        let start = self.data.len();
        self.write_values(&ones, 4);
        proof {
            lemma_le_concat_len(ones@, 4);
        }
        let values_view = self.close_view(start, None, None);

        let mut lo: Vec<u32> = Vec::new();
        lo.push(0);
        let mut hi: Vec<u32> = Vec::new();
        hi.push(F32_ONE_BITS);
        assert((k + 1) * k == k * (k + 1)) by (nonlinear_arith);
        let weights_acc = Accessor {
            buffer_view: None,
            count: (k + 1) * k,
            component_type: ComponentType::F32,
            shape: Shape::Scalar,
            min: Some(lo),
            max: Some(hi),
            name: Some(WEIGHTS_ATTRIB_NAME.to_owned()),
            sparse: Some(Sparse { count: k, indices_view, values_view }),
        };
        let weights = self.add_accessor(weights_acc);

        let samples = ordered_times(times, leading_vanish);
        let start = self.data.len();
        self.write_values(&samples, 4);
        proof {
            lemma_le_concat_len(samples@, 4);
        }
        let time_view = self.close_view(start, None, None);
        let mut tlo: Vec<u32> = Vec::new();
        tlo.push(samples[0]);
        let mut thi: Vec<u32> = Vec::new();
        thi.push(samples[samples.len() - 1]);
        let time_acc = Accessor {
            buffer_view: Some(time_view),
            count: samples.len(),
            component_type: ComponentType::F32,
            shape: Shape::Scalar,
            min: Some(tlo),
            max: Some(thi),
            name: Some(TIME_ATTRIB_NAME.to_owned()),
            sparse: None,
        };
        let time = self.add_accessor(time_acc);
        assert(self.view_seq() =~= v0 + seq![
            BufferView {
                byte_length: (4 * k) as usize,
                byte_offset: b0.len() as usize,
                byte_stride: None,
                target: None,
            },
            BufferView {
                byte_length: (4 * k) as usize,
                byte_offset: (b0.len() + 4 * k) as usize,
                byte_stride: None,
                target: None,
            },
            BufferView {
                byte_length: (4 * (k + 1)) as usize,
                byte_offset: (b0.len() + 8 * k) as usize,
                byte_stride: None,
                target: None,
            },
        ]);
        assert(self.accessor_seq().take(na as int) =~= a0);
        assert(self.accessor_seq()[na as int].min.unwrap()@ =~= seq![0u32]);
        assert(self.accessor_seq()[na as int].max.unwrap()@ =~= seq![F32_ONE_BITS]);
        Some(AnimationAccessors { time, weights })
    }

    /// Appends the bytes of an embedded image in a view of their own.
    pub fn push_image(&mut self, bytes: &Vec<u8>) -> (idx: usize)
        requires
            old(self).wf(),
        ensures
            final(self).wf(),
            final(self).bytes() == old(self).bytes() + bytes@,
            idx == old(self).view_seq().len(),
            final(self).view_seq() == old(self).view_seq().push(
                BufferView {
                    byte_length: bytes.len(),
                    byte_offset: old(self).bytes().len() as usize,
                    byte_stride: None,
                    target: None,
                },
            ),
            final(self).accessor_seq() == old(self).accessor_seq(),
    {
        let start = self.data.len();
        self.data.extend_from_slice(bytes.as_slice());
        assert(self.data@ =~= old(self).bytes() + bytes@);
        assert(self.view_seq() == old(self).view_seq());
        assert(self.accessor_seq() == old(self).accessor_seq());
        assert(self.wf_open());
        self.close_view(start, None, None)
    }
}

/// Decoding the sparse weights of `k` morph targets (an all-zero array of
/// `k * (k + 1)` weights, one at each stored index) gives, at each time sample
/// `s` from one to `k`, weight one for target `s - 1` and zero for every
/// other target.
pub proof fn lemma_sparse_weights_round_trip(k: nat, s: nat, t: nat)
    requires
        1 <= s <= k,
        t < k,
        k * (k + 1) <= u32::MAX,
    ensures
        sparse_weight_indices(k, false).contains((s * k + t) as u32) <==> t == s - 1,
{
    let idx = sparse_weight_indices(k, false);
    assert(s * k + t < k * (k + 1)) by (nonlinear_arith)
        requires s <= k, t < k;
    if t == s - 1 {
        let i = t as int;
        assert(k * (t + 1) + t == s * k + t) by (nonlinear_arith)
            requires t + 1 == s;
        assert(idx[i] == (s * k + t) as u32);
    }
    if idx.contains((s * k + t) as u32) {
        let i = choose|i: int| 0 <= i < idx.len() && idx[i] == (s * k + t) as u32;
        assert(k * (i + 1) + i < k * (k + 1)) by (nonlinear_arith)
            requires 0 <= i < k;
        assert(k * (i + 1) + i == s * k + t);
        assert((i + 1) * k + i == s * k + t) by (nonlinear_arith)
            requires k * (i + 1) + i == s * k + t;
        vstd::arithmetic::div_mod::lemma_fundamental_div_mod_converse(
            (s * k + t) as int,
            k as int,
            i + 1,
            i,
        );
        vstd::arithmetic::div_mod::lemma_fundamental_div_mod_converse(
            (s * k + t) as int,
            k as int,
            s as int,
            t as int,
        );
    }
}

/// The faces `0..n` in order.
pub open spec fn all_faces(n: nat) -> Seq<usize> {
    Seq::new(n, |i: int| i as usize)
}

/// The face lists to index: one per material group, or all faces at once
/// when there are no material groups.
pub open spec fn index_groups(n: nat, groups: Option<MaterialGroups>) -> Seq<Seq<usize>> {
    match groups {
        Some(g) => Seq::new(g.spec_num_groups(), |k: int| g.spec_faces(k)),
        None => seq![all_faces(n)],
    }
}

/// Number of faces in the first `n` face lists.
pub open spec fn listed_faces(lists: Seq<Seq<usize>>, n: nat) -> nat
    decreases n,
{
    if n == 0 || n > lists.len() {
        0
    } else {
        listed_faces(lists, (n - 1) as nat) + lists[n - 1].len()
    }
}

/// The index bytes of the first `n` face lists, one list after another.
pub open spec fn index_bytes(tri: Seq<[usize; 3]>, lists: Seq<Seq<usize>>, n: nat) -> Seq<u8>
    decreases n,
{
    if n == 0 || n > lists.len() {
        Seq::empty()
    } else {
        index_bytes(tri, lists, (n - 1) as nat) + le_concat(face_index_stream(tri, lists[n - 1]), 4)
    }
}

/// The element array views of the first `n` face lists written from byte
/// `start` on: twelve bytes per face, one view after another.
pub open spec fn index_views(start: nat, lists: Seq<Seq<usize>>, n: nat) -> Seq<BufferView>
    decreases n,
{
    if n == 0 || n > lists.len() {
        Seq::empty()
    } else {
        index_views(start, lists, (n - 1) as nat).push(
            BufferView {
                byte_length: (12 * lists[n - 1].len()) as usize,
                byte_offset: (start + 12 * listed_faces(lists, (n - 1) as nat)) as usize,
                byte_stride: None,
                target: Some(Target::ElementArrayBuffer),
            },
        )
    }
}

pub proof fn lemma_index_bytes_len(tri: Seq<[usize; 3]>, lists: Seq<Seq<usize>>, n: nat)
    requires
        n <= lists.len(),
    ensures
        index_bytes(tri, lists, n).len() == 12 * listed_faces(lists, n),
    decreases n,
{
    if n > 0 {
        lemma_index_bytes_len(tri, lists, (n - 1) as nat);
        lemma_face_index_stream_len(tri, lists[n - 1]);
        lemma_le_concat_len(face_index_stream(tri, lists[n - 1]), 4);
    }
}

/// Whether every vertex index of every triangle fits in 32 bits.
pub open spec fn tri_in_range(tri: Seq<[usize; 3]>) -> bool {
    forall|f: int|
        0 <= f < tri.len() ==> #[trigger] tri[f][0] <= u32::MAX && tri[f][1] <= u32::MAX && tri[f][2]
            <= u32::MAX
}

/// Whether every face listed in the groups is a face of a mesh with `n` faces.
pub open spec fn groups_in_range(g: MaterialGroups, n: nat) -> bool {
    forall|k: int, j: int|
        0 <= k < g.spec_num_groups() && 0 <= j < g.spec_faces(k).len() ==> #[trigger] g.spec_faces(k)[j]
            < n
}

impl DocumentBuilder {
    /// Writes the triangle indices split by material: one index view and
    /// accessor per material group, in group order, or a single one over all
    /// faces when there are no groups. Returns the accessor indices.
    pub fn build_indices(&mut self, tri: &Vec<[usize; 3]>, groups: &Option<MaterialGroups>) -> (r: Vec<usize>)
        requires
            old(self).wf(),
            tri_in_range(tri@),
            groups.is_some() ==> groups_in_range(groups.unwrap(), tri@.len()),
        ensures
            final(self).wf(),
            r@.len() == index_groups(tri@.len(), *groups).len(),
            final(self).bytes() == old(self).bytes() + index_bytes(
                tri@,
                index_groups(tri@.len(), *groups),
                r@.len() as nat,
            ),
            final(self).view_seq() == old(self).view_seq() + index_views(
                old(self).bytes().len(),
                index_groups(tri@.len(), *groups),
                r@.len() as nat,
            ),
            final(self).accessor_seq().len() == old(self).accessor_seq().len() + r@.len(),
            final(self).accessor_seq().take(old(self).accessor_seq().len() as int)
                == old(self).accessor_seq(),
            forall|k: int|
                0 <= k < r@.len() ==> #[trigger] r@[k] == old(self).accessor_seq().len() + k
                    && is_index_accessor(
                    final(self).accessor_seq()[r@[k] as int],
                    (old(self).view_seq().len() + k) as nat,
                    face_index_stream(tri@, index_groups(tri@.len(), *groups)[k]),
                ),
    {
        let ghost lists = index_groups(tri@.len(), *groups);
        let ghost na = self.accessor_seq().len();
        let ghost nv = self.view_seq().len();
        let mut out: Vec<usize> = Vec::new();
        match groups {
            Some(g) => {
                let n = g.num_groups();
                let mut k: usize = 0;
                while k < n
                    invariant
                        self.wf(),
                        tri_in_range(tri@),
                        n == g.spec_num_groups(),
                        groups_in_range(*g, tri@.len()),
                        lists == index_groups(tri@.len(), *groups),
                        *groups == Some(*g),
                        k <= n,
                        out@.len() == k,
                        self.accessor_seq().len() == na + k,
                        self.view_seq().len() == nv + k,
                        self.accessor_seq().take(na as int) == old(self).accessor_seq(),
                        na == old(self).accessor_seq().len(),
                        nv == old(self).view_seq().len(),
                        forall|k2: int|
                            0 <= k2 < k ==> #[trigger] out@[k2] == na + k2 && is_index_accessor(
                                self.accessor_seq()[out@[k2] as int],
                                (nv + k2) as nat,
                                face_index_stream(tri@, lists[k2]),
                            ),
                        lists.len() == n,
                        self.bytes() == old(self).bytes() + index_bytes(tri@, lists, k as nat),
                        self.view_seq() == old(self).view_seq() + index_views(
                            old(self).bytes().len(),
                            lists,
                            k as nat,
                        ),
                    decreases n - k,
                {
                    let ghost prev = self.accessor_seq();
                    let ghost prev_bytes = self.bytes();
                    let ghost prev_views = self.view_seq();
                    proof {
                        lemma_index_bytes_len(tri@, lists, k as nat);
                    }
                    assert(lists[k as int] == g.spec_faces(k as int));
                    assert(faces_in_range(tri@, g.spec_faces(k as int)));
                    let idx = self.push_indices(tri, g.faces(k));
                    out.push(idx);
                    assert forall|k2: int| 0 <= k2 < k + 1 implies #[trigger] out@[k2] == na + k2
                        && is_index_accessor(
                        self.accessor_seq()[out@[k2] as int],
                        (nv + k2) as nat,
                        face_index_stream(tri@, lists[k2]),
                    ) by {
                        if k2 < k {
                            assert(self.accessor_seq()[out@[k2] as int] == self.accessor_seq().take(
                                idx as int,
                            )[out@[k2] as int]);
                        }
                    }
                    assert(self.accessor_seq().take(na as int) =~= prev.take(na as int));
                    assert(self.bytes() =~= old(self).bytes() + index_bytes(tri@, lists, (k + 1) as nat));
                    assert(self.view_seq() =~= old(self).view_seq() + index_views(
                        old(self).bytes().len(),
                        lists,
                        (k + 1) as nat,
                    ));
                    k = k + 1;
                }
            },
            None => {
                let mut faces: Vec<usize> = Vec::new();
                let mut i: usize = 0;
                while i < tri.len()
                    invariant
                        i <= tri@.len(),
                        faces@ == all_faces(i as nat),
                    decreases tri@.len() - i,
                {
                    faces.push(i);
                    i = i + 1;
                    assert(faces@ =~= all_faces(i as nat));
                }
                let idx = self.push_indices(tri, &faces);
                out.push(idx);
                assert(self.accessor_seq().take(na as int) =~= old(self).accessor_seq());
                assert(lists.len() == 1 && lists[0] == all_faces(tri@.len()));
                assert(faces@ == all_faces(tri@.len()));
                assert(index_bytes(tri@, lists, 0) =~= Seq::<u8>::empty());
                assert(index_views(old(self).bytes().len(), lists, 0) =~= Seq::<BufferView>::empty());
                assert(listed_faces(lists, 0) == 0);
                assert(index_bytes(tri@, lists, 1) =~= le_concat(face_index_stream(tri@, all_faces(tri@.len())), 4));
                assert(self.bytes() =~= old(self).bytes() + index_bytes(tri@, lists, 1));
                assert(self.view_seq() =~= old(self).view_seq() + index_views(
                    old(self).bytes().len(),
                    lists,
                    1,
                ));
            },
        }
        out
    }
}

} // verus!
