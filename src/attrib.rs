//! The closed set of attribute element types and the data extracted for them.
use vstd::prelude::*;

verus! {

/// Component type of an attribute or accessor.
#[derive(Clone, Copy, Debug, PartialEq, Eq, Structural)]
pub enum ComponentType {
    /// Signed 8-bit integer. Corresponds to `GL_BYTE`.
    I8,
    /// Unsigned 8-bit integer. Corresponds to `GL_UNSIGNED_BYTE`.
    U8,
    /// Signed 16-bit integer. Corresponds to `GL_SHORT`.
    I16,
    /// Unsigned 16-bit integer. Corresponds to `GL_UNSIGNED_SHORT`.
    U16,
    /// Unsigned 32-bit integer. Corresponds to `GL_UNSIGNED_INT`.
    U32,
    /// Single precision (32-bit) floating point number. Corresponds to `GL_FLOAT`.
    F32,
}

/// Element shape of an attribute or accessor, the glTF accessor "type".
#[derive(Clone, Copy, Debug, PartialEq, Eq, Structural)]
pub enum Shape {
    Scalar,
    Vec2,
    Vec3,
    Vec4,
    Mat2,
    Mat3,
    Mat4,
}

/// Declared type of a custom or color attribute.
#[derive(Clone, Copy, Debug, PartialEq, Eq, Structural)]
pub enum Type {
    /// Signed 8-bit integer scalar.
    I8,
    /// Unsigned 8-bit integer scalar.
    U8,
    /// Signed 16-bit integer scalar.
    I16,
    /// Unsigned 16-bit integer scalar.
    U16,
    /// Unsigned 32-bit integer scalar.
    U32,
    /// Single precision floating point scalar.
    F32,
    /// Scalar quantity.
    Scalar(ComponentType),
    /// 2D vector.
    Vec2(ComponentType),
    /// 3D vector.
    Vec3(ComponentType),
    /// 4D vector.
    Vec4(ComponentType),
    /// 2x2 matrix.
    Mat2(ComponentType),
    /// 3x3 matrix.
    Mat3(ComponentType),
    /// 4x4 matrix.
    Mat4(ComponentType),
}

/// Number of bytes taken by one component.
pub open spec fn component_size(c: ComponentType) -> nat {
    match c {
        ComponentType::I8 | ComponentType::U8 => 1,
        ComponentType::I16 | ComponentType::U16 => 2,
        ComponentType::U32 | ComponentType::F32 => 4,
    }
}

/// The OpenGL enumeration value glTF uses for a component type.
pub open spec fn gl_code(c: ComponentType) -> u32 {
    match c {
        ComponentType::I8 => 5120,
        ComponentType::U8 => 5121,
        ComponentType::I16 => 5122,
        ComponentType::U16 => 5123,
        ComponentType::U32 => 5125,
        ComponentType::F32 => 5126,
    }
}

/// Number of components in one element of the given shape.
pub open spec fn shape_components(s: Shape) -> nat {
    match s {
        Shape::Scalar => 1,
        Shape::Vec2 => 2,
        Shape::Vec3 => 3,
        Shape::Vec4 | Shape::Mat2 => 4,
        Shape::Mat3 => 9,
        Shape::Mat4 => 16,
    }
}

impl ComponentType {
    /// Number of bytes taken by one component of this type.
    pub fn byte_size(self) -> (r: usize)
        ensures
            r == component_size(self),
    {
        match self {
            ComponentType::I8 | ComponentType::U8 => 1,
            ComponentType::I16 | ComponentType::U16 => 2,
            ComponentType::U32 | ComponentType::F32 => 4,
        }
    }

    /// The OpenGL enumeration value of this component type.
    pub fn gl_code(self) -> (r: u32)
        ensures
            r == gl_code(self),
    {
        match self {
            ComponentType::I8 => 5120,
            ComponentType::U8 => 5121,
            ComponentType::I16 => 5122,
            ComponentType::U16 => 5123,
            ComponentType::U32 => 5125,
            ComponentType::F32 => 5126,
        }
    }
}

impl Shape {
    /// Number of components in one element of this shape.
    pub fn num_components(self) -> (r: usize)
        ensures
            r == shape_components(self),
    {
        match self {
            Shape::Scalar => 1,
            Shape::Vec2 => 2,
            Shape::Vec3 => 3,
            Shape::Vec4 | Shape::Mat2 => 4,
            Shape::Mat3 => 9,
            Shape::Mat4 => 16,
        }
    }
}

impl Type {
    /// Element shape of this type; the bare component forms are scalars.
    pub open spec fn spec_shape(self) -> Shape {
        match self {
            Type::Vec2(_) => Shape::Vec2,
            Type::Vec3(_) => Shape::Vec3,
            Type::Vec4(_) => Shape::Vec4,
            Type::Mat2(_) => Shape::Mat2,
            Type::Mat3(_) => Shape::Mat3,
            Type::Mat4(_) => Shape::Mat4,
            _ => Shape::Scalar,
        }
    }

    /// Component type of this type.
    pub open spec fn spec_component(self) -> ComponentType {
        match self {
            Type::I8 => ComponentType::I8,
            Type::U8 => ComponentType::U8,
            Type::I16 => ComponentType::I16,
            Type::U16 => ComponentType::U16,
            Type::U32 => ComponentType::U32,
            Type::F32 => ComponentType::F32,
            Type::Scalar(c) | Type::Vec2(c) | Type::Vec3(c) | Type::Vec4(c) | Type::Mat2(c)
            | Type::Mat3(c) | Type::Mat4(c) => c,
        }
    }

    /// Number of components in one element of this type.
    pub open spec fn spec_components(self) -> nat {
        shape_components(self.spec_shape())
    }

    /// Number of bytes taken by one element of this type.
    pub open spec fn spec_element_size(self) -> nat {
        component_size(self.spec_component()) * self.spec_components()
    }

    /// Element shape of this type.
    pub fn shape(self) -> (r: Shape)
        ensures
            r == self.spec_shape(),
    {
        match self {
            Type::Vec2(_) => Shape::Vec2,
            Type::Vec3(_) => Shape::Vec3,
            Type::Vec4(_) => Shape::Vec4,
            Type::Mat2(_) => Shape::Mat2,
            Type::Mat3(_) => Shape::Mat3,
            Type::Mat4(_) => Shape::Mat4,
            _ => Shape::Scalar,
        }
    }

    /// Component type of this type.
    pub fn component_type(self) -> (r: ComponentType)
        ensures
            r == self.spec_component(),
    {
        match self {
            Type::I8 => ComponentType::I8,
            Type::U8 => ComponentType::U8,
            Type::I16 => ComponentType::I16,
            Type::U16 => ComponentType::U16,
            Type::U32 => ComponentType::U32,
            Type::F32 => ComponentType::F32,
            Type::Scalar(c) | Type::Vec2(c) | Type::Vec3(c) | Type::Vec4(c) | Type::Mat2(c)
            | Type::Mat3(c) | Type::Mat4(c) => c,
        }
    }

    /// Number of components in one element of this type.
    pub fn num_components(self) -> (r: usize)
        ensures
            r == self.spec_components(),
            1 <= r <= 16,
    {
        self.shape().num_components()
    }

    /// Number of bytes taken by one element of this type.
    pub fn element_size(self) -> (r: usize)
        ensures
            r == self.spec_element_size(),
            1 <= r <= 64,
    {
        let n = self.num_components();
        let c = self.component_type().byte_size();
        assert(1 <= c <= 4);
        assert(n * c <= 64) by (nonlinear_arith)
            requires 1 <= n <= 16, 1 <= c <= 4;
        n * c
    }
}

/// A named vertex attribute removed from a mesh.
///
/// `values` holds every component of every element in order. Integer
/// components are stored in the low bits, two's complement for the signed
/// types; `F32` components are stored as their bit pattern.
#[derive(Clone, Debug)]
pub struct Attribute {
    pub name: String,
    pub type_: Type,
    pub values: Vec<u32>,
}

impl Attribute {
    /// The values form whole elements.
    pub open spec fn wf(&self) -> bool {
        self.values@.len() % self.type_.spec_components() == 0
    }

    /// Number of elements.
    pub open spec fn spec_len(&self) -> nat {
        self.values@.len() / self.type_.spec_components()
    }
}

/// A texture coordinate attribute promoted to a vertex attribute.
///
/// `id` is the position of the attribute in the declared texture coordinate
/// specification. Each element stores `width` components (two, or three when
/// the coordinates were stored in a 3D vector); components are laid out as in
/// [`Attribute`].
#[derive(Clone, Debug)]
pub struct TextureAttribute {
    pub id: u32,
    pub name: String,
    pub component_type: ComponentType,
    pub width: usize,
    pub values: Vec<u32>,
}

impl TextureAttribute {
    /// Elements hold two or three components and the values form whole elements.
    pub open spec fn wf(&self) -> bool {
        &&& (self.width == 2 || self.width == 3)
        &&& self.values@.len() % (self.width as nat) == 0
    }

    /// Number of elements.
    pub open spec fn spec_len(&self) -> nat {
        self.values@.len() / (self.width as nat)
    }
}

/// Whether a declared type is one of the supported color encodings:
/// a 3 or 4 component vector of `u8`, `u16` or `f32` components.
pub open spec fn is_color_type(t: Type) -> bool {
    match t {
        Type::Vec3(c) | Type::Vec4(c) => c == ComponentType::U8 || c == ComponentType::U16
            || c == ComponentType::F32,
        _ => false,
    }
}

/// Whether a component type is valid for texture coordinates.
pub open spec fn is_tex_coord_component(c: ComponentType) -> bool {
    c == ComponentType::U8 || c == ComponentType::U16 || c == ComponentType::F32
}

/// Element size of a color attribute of the given type, if that type is a
/// supported color encoding.
pub fn color_element_size(t: Type) -> (r: Option<usize>)
    ensures
        is_color_type(t) <==> r.is_some(),
        r.is_some() ==> r.unwrap() == t.spec_element_size(),
{
    match t {
        Type::Vec3(ComponentType::U8) | Type::Vec3(ComponentType::U16) | Type::Vec3(
            ComponentType::F32,
        ) | Type::Vec4(ComponentType::U8) | Type::Vec4(ComponentType::U16) | Type::Vec4(
            ComponentType::F32,
        ) => Some(t.element_size()),
        _ => None,
    }
}

/// Element size of a two component texture coordinate of the given component
/// type, if that component type is valid for texture coordinates.
pub fn tex_coord_element_size(c: ComponentType) -> (r: Option<usize>)
    ensures
        is_tex_coord_component(c) <==> r.is_some(),
        r.is_some() ==> r.unwrap() == 2 * component_size(c),
{
    match c {
        ComponentType::U8 | ComponentType::U16 | ComponentType::F32 => Some(2 * c.byte_size()),
        _ => None,
    }
}

/// The faces among the first `n` whose material id is `key`, in increasing order.
pub open spec fn faces_with_id(ids: Seq<u32>, key: u32, n: nat) -> Seq<usize>
    decreases n,
{
    if n == 0 {
        Seq::empty()
    } else {
        faces_with_id(ids, key, (n - 1) as nat) + if ids[n - 1] == key {
            seq![(n - 1) as usize]
        } else {
            Seq::empty()
        }
    }
}

#[verifier::external_type_specification]
#[verifier::external_body]
#[verifier::reject_recursive_types(K)]
#[verifier::reject_recursive_types(V)]
#[verifier::reject_recursive_types(S)]
pub struct ExIndexMap<K, V, S>(indexmap::IndexMap<K, V, S>);

/// The entries of a map from material id to faces, in the map's order.
pub uninterp spec fn map_entries(m: indexmap::IndexMap<u32, Vec<usize>>) -> Seq<(u32, Seq<usize>)>;

/// Relies on `IndexMap::new`: a map without entries.
#[verifier::external_body]
fn map_new() -> (r: indexmap::IndexMap<u32, Vec<usize>>)
    ensures
        map_entries(r) == Seq::<(u32, Seq<usize>)>::empty(),
{
    indexmap::IndexMap::new()
}

/// Relies on `IndexMap::len`: the number of entries.
#[verifier::external_body]
fn map_len(m: &indexmap::IndexMap<u32, Vec<usize>>) -> (r: usize)
    ensures
        r == map_entries(*m).len(),
{
    m.len()
}

/// Relies on `IndexMap::get_index_of`: the position of the entry with this
/// key, if there is one.
#[verifier::external_body]
fn map_index_of(m: &indexmap::IndexMap<u32, Vec<usize>>, key: u32) -> (r: Option<usize>)
    ensures
        r matches Some(i) ==> i < map_entries(*m).len() && map_entries(*m)[i as int].0 == key,
        r is None ==> forall|i: int| 0 <= i < map_entries(*m).len() ==> #[trigger] map_entries(*m)[i].0 != key,
{
    m.get_index_of(&key)
}

/// Relies on `IndexMap::get_index`: the key and the value at a position.
#[verifier::external_body]
fn map_entry(m: &indexmap::IndexMap<u32, Vec<usize>>, i: usize) -> (r: (u32, &Vec<usize>))
    requires
        i < map_entries(*m).len(),
    ensures
        r.0 == map_entries(*m)[i as int].0,
        r.1@ == map_entries(*m)[i as int].1,
{
    let (k, v) = m.get_index(i).unwrap();
    (*k, v)
}

/// Relies on `IndexMut<usize>` for `IndexMap`: appends a face to the value at
/// a position, leaving keys and order as they are.
#[verifier::external_body]
fn map_push_at(m: &mut indexmap::IndexMap<u32, Vec<usize>>, i: usize, face: usize)
    requires
        i < map_entries(*old(m)).len(),
    ensures
        map_entries(*final(m)) == map_entries(*old(m)).update(
            i as int,
            (map_entries(*old(m))[i as int].0, map_entries(*old(m))[i as int].1.push(face)),
        ),
{
    m[i].push(face);
}

/// Relies on `IndexMap::insert`: a key that is not in the map is inserted
/// last, with its value.
#[verifier::external_body]
fn map_insert(m: &mut indexmap::IndexMap<u32, Vec<usize>>, key: u32, value: Vec<usize>)
    ensures
        (forall|i: int| 0 <= i < map_entries(*old(m)).len() ==> #[trigger] map_entries(*old(m))[i].0 != key)
            ==> map_entries(*final(m)) == map_entries(*old(m)).push((key, value@)),
{
    m.insert(key, value);
}

/// Face indices grouped by material id, in an insertion ordered map.
#[derive(Debug)]
pub struct MaterialGroups {
    map: indexmap::IndexMap<u32, Vec<usize>>,
}

impl MaterialGroups {
    /// The groups in order: each material id with its faces.
    pub closed spec fn entries(&self) -> Seq<(u32, Seq<usize>)> {
        map_entries(self.map)
    }

    /// Number of groups.
    pub open spec fn spec_num_groups(&self) -> nat {
        self.entries().len()
    }

    /// Material id of group `k`.
    pub open spec fn spec_id(&self, k: int) -> u32 {
        self.entries()[k].0
    }

    /// Faces of group `k`.
    pub open spec fn spec_faces(&self, k: int) -> Seq<usize> {
        self.entries()[k].1
    }

    /// Whether some group has this material id.
    pub open spec fn has_id(&self, key: u32) -> bool {
        exists|k: int| 0 <= k < self.spec_num_groups() && self.spec_id(k) == key
    }

    /// Material ids are distinct.
    pub open spec fn wf(&self) -> bool {
        forall|i: int, j: int|
            0 <= i < j < self.spec_num_groups() ==> #[trigger] self.spec_id(i) != #[trigger] self.spec_id(j)
    }

    /// No groups.
    pub fn new() -> (r: MaterialGroups)
        ensures
            r.entries() == Seq::<(u32, Seq<usize>)>::empty(),
    {
        MaterialGroups { map: map_new() }
    }

    /// Number of groups.
    pub fn num_groups(&self) -> (r: usize)
        ensures
            r == self.spec_num_groups(),
    {
        map_len(&self.map)
    }

    /// Material id of group `k`.
    pub fn id(&self, k: usize) -> (r: u32)
        requires
            k < self.spec_num_groups(),
        ensures
            r == self.spec_id(k as int),
    {
        map_entry(&self.map, k).0
    }

    /// Faces of group `k`.
    pub fn faces(&self, k: usize) -> (r: &Vec<usize>)
        requires
            k < self.spec_num_groups(),
        ensures
            r@ == self.spec_faces(k as int),
    {
        map_entry(&self.map, k).1
    }

    /// Adds a face to the group of its material id, making a new last group
    /// when there is none.
    pub fn add_face(&mut self, id: u32, face: usize)
        ensures
            (exists|k: int| 0 <= k < old(self).spec_num_groups() && #[trigger] old(self).spec_id(k) == id)
                ==> exists|k: int|
                0 <= k < old(self).spec_num_groups() && #[trigger] old(self).spec_id(k) == id
                    && final(self).entries() == old(self).entries().update(
                    k,
                    (id, old(self).spec_faces(k).push(face)),
                ),
            !(exists|k: int| 0 <= k < old(self).spec_num_groups() && #[trigger] old(self).spec_id(k) == id)
                ==> final(self).entries() == old(self).entries().push((id, seq![face])),
    {
        match map_index_of(&self.map, id) {
            Some(k) => {
                map_push_at(&mut self.map, k, face);
                assert(old(self).spec_id(k as int) == id);
            },
            None => {
                let mut group: Vec<usize> = Vec::new();
                group.push(face);
                assert(group@ =~= seq![face]);
                map_insert(&mut self.map, id, group);
                assert forall|k: int| 0 <= k < old(self).spec_num_groups() implies #[trigger] old(
                    self,
                ).spec_id(k) != id by {
                    assert(map_entries(old(self).map)[k].0 != id);
                }
            },
        }
    }

    /// The material ids of the groups, in order.
    pub fn ids(&self) -> (r: Vec<u32>)
        ensures
            r@.len() == self.spec_num_groups(),
            forall|k: int| 0 <= k < r@.len() ==> #[trigger] r@[k] == self.spec_id(k),
    {
        let mut r: Vec<u32> = Vec::new();
        let n = self.num_groups();
        let mut k: usize = 0;
        while k < n
            invariant
                k <= n,
                n == self.spec_num_groups(),
                r@.len() == k,
                forall|j: int| 0 <= j < k ==> #[trigger] r@[j] == self.spec_id(j),
            decreases n - k,
        {
            r.push(self.id(k));
            k = k + 1;
        }
        r
    }

    /// Whether these groups are the grouping of the per-face ids `ids`: ids
    /// are distinct, each group lists exactly the faces with its id in
    /// increasing order, every face's id has a group, and groups come in order
    /// of first appearance.
    pub open spec fn groups(&self, ids: Seq<u32>) -> bool {
        &&& self.wf()
        &&& forall|k: int|
            0 <= k < self.spec_num_groups() ==> #[trigger] self.spec_faces(k) == faces_with_id(
                ids,
                self.spec_id(k),
                ids.len(),
            )
        &&& forall|f: int| 0 <= f < ids.len() ==> #[trigger] self.has_id(ids[f])
        &&& forall|k: int| 0 <= k < self.spec_num_groups() ==> #[trigger] self.spec_faces(k).len() > 0
        &&& forall|i: int, j: int|
            0 <= i < j < self.spec_num_groups() ==> #[trigger] self.spec_faces(i)[0]
                < #[trigger] self.spec_faces(j)[0]
    }

    /// Whether face `f` is listed in some group.
    pub open spec fn lists_face(&self, f: int) -> bool {
        exists|k: int, j: int|
            0 <= k < self.spec_num_groups() && 0 <= j < self.spec_faces(k).len()
                && #[trigger] self.spec_faces(k)[j] == f
    }

    /// Whether the face lists partition the faces `0..n`: every face index is
    /// below `n`, every face below `n` is listed, and no face is listed twice.
    pub open spec fn partitions(&self, n: nat) -> bool {
        &&& forall|k: int, j: int|
            0 <= k < self.spec_num_groups() && 0 <= j < self.spec_faces(k).len()
                ==> #[trigger] self.spec_faces(k)[j] < n
        &&& forall|f: int| 0 <= f < n ==> #[trigger] self.lists_face(f)
        &&& forall|k1: int, j1: int, k2: int, j2: int|
            0 <= k1 < self.spec_num_groups() && 0 <= j1 < self.spec_faces(k1).len() && 0 <= k2
                < self.spec_num_groups() && 0 <= j2 < self.spec_faces(k2).len()
                && #[trigger] self.spec_faces(k1)[j1] == #[trigger] self.spec_faces(k2)[j2] ==> k1 == k2
                && j1 == j2
    }
}

pub proof fn lemma_faces_with_id(ids: Seq<u32>, key: u32, n: nat)
    requires
        n <= ids.len(),
        n <= usize::MAX,
    ensures
        forall|j: int|
            0 <= j < faces_with_id(ids, key, n).len() ==> #[trigger] faces_with_id(ids, key, n)[j]
                < n && ids[faces_with_id(ids, key, n)[j] as int] == key,
        forall|i: int, j: int|
            0 <= i < j < faces_with_id(ids, key, n).len() ==> #[trigger] faces_with_id(ids, key, n)[i]
                < #[trigger] faces_with_id(ids, key, n)[j],
        forall|m: int|
            0 <= m < n && ids[m] == key ==> #[trigger] faces_with_id(ids, key, n).contains(
                m as usize,
            ),
    decreases n,
{
    if n > 0 {
        lemma_faces_with_id(ids, key, (n - 1) as nat);
        let prev = faces_with_id(ids, key, (n - 1) as nat);
        let cur = faces_with_id(ids, key, n);
        assert forall|j: int| 0 <= j < cur.len() implies (j < prev.len() ==> cur[j] == prev[j]) && (
        j >= prev.len() ==> cur[j] == (n - 1) as usize) by {}
        assert forall|j: int| 0 <= j < cur.len() implies #[trigger] cur[j] < n && ids[cur[j] as int]
            == key by {
            if j < prev.len() {
                assert(cur[j] == prev[j]);
            }
        }
        assert forall|i: int, j: int| 0 <= i < j < cur.len() implies #[trigger] cur[i]
            < #[trigger] cur[j] by {
            if j < prev.len() {
                assert(cur[i] == prev[i] && cur[j] == prev[j]);
            } else {
                assert(cur[i] == prev[i]);
            }
        }
        assert forall|m: int| 0 <= m < n && ids[m] == key implies #[trigger] cur.contains(
            m as usize,
        ) by {
            if m < n - 1 {
                assert(prev.contains(m as usize));
                let j = choose|j: int| 0 <= j < prev.len() && prev[j] == m as usize;
                assert(cur[j] == prev[j]);
            } else {
                assert(cur[prev.len() as int] == m as usize);
            }
        }
    }
}

pub proof fn lemma_faces_with_id_absent(ids: Seq<u32>, key: u32, n: nat)
    requires
        n <= ids.len(),
        forall|m: int| 0 <= m < n ==> ids[m] != key,
    ensures
        faces_with_id(ids, key, n) == Seq::<usize>::empty(),
    decreases n,
{
    if n > 0 {
        lemma_faces_with_id_absent(ids, key, (n - 1) as nat);
    }
}

/// Groups the faces by their material id: face `f` has id `ids[f]`.
pub fn group_mtls(ids: &Vec<u32>) -> (r: MaterialGroups)
    ensures
        r.groups(ids@),
{
    let mut g = MaterialGroups::new();
    let mut f: usize = 0;
    while f < ids.len()
        invariant
            f <= ids.len(),
            g.wf(),
            forall|k: int|
                0 <= k < g.spec_num_groups() ==> #[trigger] g.spec_faces(k) == faces_with_id(
                    ids@,
                    g.spec_id(k),
                    f as nat,
                ),
            forall|m: int| 0 <= m < f ==> #[trigger] g.has_id(ids@[m]),
            forall|k: int| 0 <= k < g.spec_num_groups() ==> #[trigger] g.spec_faces(k).len() > 0,
            forall|k: int| 0 <= k < g.spec_num_groups() ==> #[trigger] g.spec_faces(k)[0] < f,
            forall|i: int, j: int|
                0 <= i < j < g.spec_num_groups() ==> #[trigger] g.spec_faces(i)[0]
                    < #[trigger] g.spec_faces(j)[0],
        decreases ids.len() - f,
    {
        let key = ids[f];
        let ghost old_g = g;
        let ghost found = exists|k: int| 0 <= k < old_g.spec_num_groups() && #[trigger] old_g.spec_id(k) == key;
        g.add_face(key, f);
        proof {
        if found {
            let k = choose|k: int|
                0 <= k < old_g.spec_num_groups() && #[trigger] old_g.spec_id(k) == key
                    && g.entries() == old_g.entries().update(k, (key, old_g.spec_faces(k).push(f)));
            assert forall|k2: int| 0 <= k2 < g.spec_num_groups() implies #[trigger] g.spec_faces(k2)
                == faces_with_id(ids@, g.spec_id(k2), (f + 1) as nat) by {
                if k2 != k {
                    assert(g.entries()[k2] == old_g.entries()[k2]);
                    assert(old_g.spec_faces(k2) == faces_with_id(ids@, old_g.spec_id(k2), f as nat));
                } else {
                    assert(old_g.spec_faces(k2) == faces_with_id(ids@, old_g.spec_id(k2), f as nat));
                }
            }
            assert forall|k2: int| 0 <= k2 < g.spec_num_groups() implies #[trigger] g.spec_faces(
                k2,
            ).len() > 0 && g.spec_faces(k2)[0] == old_g.spec_faces(k2)[0] && g.spec_id(k2)
                == old_g.spec_id(k2) by {
                assert(old_g.spec_faces(k2).len() > 0);
                if k2 != k {
                    assert(g.entries()[k2] == old_g.entries()[k2]);
                }
            }
            assert forall|m: int| 0 <= m < f + 1 implies #[trigger] g.has_id(ids@[m]) by {
                if m < f {
                    assert(old_g.has_id(ids@[m]));
                    let j = choose|j: int| 0 <= j < old_g.spec_num_groups() && old_g.spec_id(j) == ids@[m];
                    assert(g.spec_id(j) == ids@[m]);
                } else {
                    assert(g.spec_id(k) == ids@[m]);
                }
            }
            assert forall|i: int, j: int| 0 <= i < j < g.spec_num_groups() implies #[trigger] g.spec_id(i)
                != #[trigger] g.spec_id(j) by {
                assert(old_g.spec_id(i) != old_g.spec_id(j));
            }
            assert forall|i: int, j: int| 0 <= i < j < g.spec_num_groups() implies #[trigger] g.spec_faces(i)[0]
                < #[trigger] g.spec_faces(j)[0] by {
                assert(old_g.spec_faces(i)[0] < old_g.spec_faces(j)[0]);
            }
        } else {
            let n = old_g.spec_num_groups();
            assert(g.entries() == old_g.entries().push((key, seq![f])));
            assert forall|m: int| 0 <= m < f implies ids@[m] != key by {
                assert(old_g.has_id(ids@[m]));
            }
            lemma_faces_with_id_absent(ids@, key, f as nat);
            assert(faces_with_id(ids@, key, (f + 1) as nat) =~= seq![f]);
            assert forall|k2: int| 0 <= k2 < g.spec_num_groups() implies #[trigger] g.spec_faces(k2)
                == faces_with_id(ids@, g.spec_id(k2), (f + 1) as nat) by {
                if k2 < n {
                    assert(g.entries()[k2] == old_g.entries()[k2]);
                    assert(old_g.spec_faces(k2) == faces_with_id(ids@, old_g.spec_id(k2), f as nat));
                    assert(old_g.spec_id(k2) != key);
                }
            }
            assert forall|m: int| 0 <= m < f + 1 implies #[trigger] g.has_id(ids@[m]) by {
                if m < f {
                    assert(old_g.has_id(ids@[m]));
                    let j = choose|j: int| 0 <= j < old_g.spec_num_groups() && old_g.spec_id(j) == ids@[m];
                    assert(g.entries()[j] == old_g.entries()[j]);
                    assert(g.spec_id(j) == ids@[m]);
                } else {
                    assert(g.entries()[n as int] == (key, seq![f]));
                    assert(g.spec_id(n as int) == ids@[m]);
                }
            }
            assert forall|k2: int| 0 <= k2 < g.spec_num_groups() implies #[trigger] g.spec_faces(
                k2,
            ).len() > 0 && g.spec_faces(k2)[0] < f + 1 by {
                if k2 < n {
                    assert(g.entries()[k2] == old_g.entries()[k2]);
                    assert(old_g.spec_faces(k2).len() > 0);
                }
            }
            assert forall|i: int, j: int| 0 <= i < j < g.spec_num_groups() implies #[trigger] g.spec_id(i)
                != #[trigger] g.spec_id(j) by {
                assert(g.entries()[i] == old_g.entries()[i]);
                if j < n {
                    assert(g.entries()[j] == old_g.entries()[j]);
                    assert(old_g.spec_id(i) != old_g.spec_id(j));
                } else {
                    assert(old_g.spec_id(i) != key);
                }
            }
            assert forall|i: int, j: int| 0 <= i < j < g.spec_num_groups() implies #[trigger] g.spec_faces(i)[0]
                < #[trigger] g.spec_faces(j)[0] by {
                assert(g.entries()[i] == old_g.entries()[i]);
                assert(old_g.spec_faces(i).len() > 0);
                if j < n {
                    assert(g.entries()[j] == old_g.entries()[j]);
                    assert(old_g.spec_faces(i)[0] < old_g.spec_faces(j)[0]);
                } else {
                    assert(old_g.spec_faces(i)[0] < f);
                }
            }
        }
        }
        f = f + 1;
    }
    g
}

/// The groups of a per-face material id assignment partition the faces: the
/// union of the face lists is the whole face index range, with no face listed
/// twice.
pub proof fn lemma_material_groups_partition(g: MaterialGroups, ids: Seq<u32>)
    requires
        g.groups(ids),
        ids.len() <= usize::MAX,
    ensures
        g.partitions(ids.len()),
{
    let n = ids.len();
    assert forall|k: int, j: int|
        0 <= k < g.spec_num_groups() && 0 <= j < g.spec_faces(k).len() implies #[trigger] g.spec_faces(k)[j]
        < n by {
        lemma_faces_with_id(ids, g.spec_id(k), n);
        assert(g.spec_faces(k) == faces_with_id(ids, g.spec_id(k), n));
    }
    assert forall|f: int| 0 <= f < n implies #[trigger] g.lists_face(f) by {
        assert(g.has_id(ids[f]));
        let k = choose|k: int| 0 <= k < g.spec_num_groups() && g.spec_id(k) == ids[f];
        lemma_faces_with_id(ids, g.spec_id(k), n);
        assert(g.spec_faces(k) == faces_with_id(ids, g.spec_id(k), n));
        assert(g.spec_faces(k).contains(f as usize));
        let j = choose|j: int| 0 <= j < g.spec_faces(k).len() && g.spec_faces(k)[j] == f as usize;
        assert(g.spec_faces(k)[j] == f);
    }
    assert forall|k1: int, j1: int, k2: int, j2: int|
        0 <= k1 < g.spec_num_groups() && 0 <= j1 < g.spec_faces(k1).len() && 0 <= k2
            < g.spec_num_groups() && 0 <= j2 < g.spec_faces(k2).len() && #[trigger] g.spec_faces(k1)[j1]
            == #[trigger] g.spec_faces(k2)[j2] implies k1 == k2 && j1 == j2 by {
        lemma_faces_with_id(ids, g.spec_id(k1), n);
        lemma_faces_with_id(ids, g.spec_id(k2), n);
        assert(g.spec_faces(k1) == faces_with_id(ids, g.spec_id(k1), n));
        assert(g.spec_faces(k2) == faces_with_id(ids, g.spec_id(k2), n));
        assert(ids[g.spec_faces(k1)[j1] as int] == g.spec_id(k1));
        assert(ids[g.spec_faces(k2)[j2] as int] == g.spec_id(k2));
        if k1 != k2 {
            if k1 < k2 {
                assert(g.spec_id(k1) != g.spec_id(k2));
            } else {
                assert(g.spec_id(k2) != g.spec_id(k1));
            }
        }
        if j1 < j2 {
            assert(g.spec_faces(k1)[j1] < g.spec_faces(k1)[j2]);
        } else if j2 < j1 {
            assert(g.spec_faces(k1)[j2] < g.spec_faces(k1)[j1]);
        }
    }
}

/// Material assignment of the faces of a mesh.
#[derive(Debug)]
pub enum MaterialIds {
    /// Materials described by the mesh itself: face `f` uses
    /// `materials[ids[f]]`.
    Local { ids: Vec<u32>, materials: Vec<crate::material::LocalMaterial> },
    /// Faces grouped by an index into the global material table.
    Global { map: MaterialGroups },
}

/// The attributes extracted from a mesh for export.
#[derive(Debug)]
pub struct AttribTransfer {
    pub attribs_to_keep: Vec<Attribute>,
    pub color_attribs_to_keep: Vec<Attribute>,
    pub tex_attribs_to_keep: Vec<TextureAttribute>,
    pub material_ids: Option<MaterialIds>,
    /// Vertex normals, empty when the mesh has none.
    pub normal_attrib: crate::export::Vec3Data,
    /// Vertex tangents, empty when the mesh has none.
    pub tangent_attrib: crate::export::Vec3Data,
}

/// Whether every local material id names one of the materials.
pub open spec fn local_ids_ok(ids: Seq<u32>, num_materials: nat) -> bool {
    forall|f: int| 0 <= f < ids.len() ==> #[trigger] ids[f] < num_materials
}

/// The material assignment of a mesh: the grouping of the per-face ids of the
/// material attribute when the mesh has one; otherwise the materials the mesh
/// describes itself, when it describes any for its faces; otherwise none.
pub fn material_ids_from(
    global: Option<Vec<u32>>,
    local: Option<(Vec<u32>, Vec<crate::material::LocalMaterial>)>,
) -> (r: Option<MaterialIds>)
    ensures
        global.is_some() ==> (r matches Some(MaterialIds::Global { map }) && map.groups(
            global.unwrap()@,
        )),
        global.is_none() && local.is_some() && local.unwrap().0@.len() > 0 ==> (r matches Some(
            MaterialIds::Local { ids, materials },
        ) && ids@ == local.unwrap().0@ && materials@ == local.unwrap().1@),
        global.is_none() && (local.is_none() || local.unwrap().0@.len() == 0) ==> r.is_none(),
{
    match global {
        Some(ids) => Some(MaterialIds::Global { map: group_mtls(&ids) }),
        None => match local {
            Some((ids, materials)) => {
                if ids.len() == 0 {
                    None
                } else {
                    Some(MaterialIds::Local { ids, materials })
                }
            },
            None => None,
        },
    }
}

impl MaterialGroups {
    /// A copy of these groups.
    pub fn copy(&self) -> (r: MaterialGroups)
        requires
            self.wf(),
        ensures
            r.entries() == self.entries(),
    {
        let mut r = MaterialGroups::new();
        let n = self.num_groups();
        let mut k: usize = 0;
        while k < n
            invariant
                k <= n,
                n == self.spec_num_groups(),
                self.wf(),
                r.entries() == self.entries().take(k as int),
            decreases n - k,
        {
            let src = self.faces(k);
            let mut group: Vec<usize> = Vec::new();
            let mut j: usize = 0;
            while j < src.len()
                invariant
                    j <= src@.len(),
                    group@ == src@.take(j as int),
                decreases src@.len() - j,
            {
                group.push(src[j]);
                j = j + 1;
                assert(group@ =~= src@.take(j as int));
            }
            assert(group@ =~= src@);
            let id = self.id(k);
            assert forall|i: int| 0 <= i < map_entries(r.map).len() implies #[trigger] map_entries(r.map)[i].0
                != id by {
                assert(map_entries(r.map)[i] == self.entries()[i]);
                assert(self.spec_id(i) != self.spec_id(k as int));
            }
            map_insert(&mut r.map, id, group);
            assert(r.entries() =~= self.entries().take(k + 1));
            k = k + 1;
        }
        assert(r.entries() =~= self.entries());
        r
    }
}

/// The name of a component type.
pub open spec fn component_name(c: ComponentType) -> Seq<char> {
    match c {
        ComponentType::I8 => "I8"@,
        ComponentType::U8 => "U8"@,
        ComponentType::I16 => "I16"@,
        ComponentType::U16 => "U16"@,
        ComponentType::U32 => "U32"@,
        ComponentType::F32 => "F32"@,
    }
}

/// The name of an element shape.
pub open spec fn shape_name(s: Shape) -> Seq<char> {
    match s {
        Shape::Scalar => "Scalar"@,
        Shape::Vec2 => "Vec2"@,
        Shape::Vec3 => "Vec3"@,
        Shape::Vec4 => "Vec4"@,
        Shape::Mat2 => "Mat2"@,
        Shape::Mat3 => "Mat3"@,
        Shape::Mat4 => "Mat4"@,
    }
}

impl ComponentType {
    /// The name of this component type, as in `U16`.
    pub fn name(self) -> (r: &'static str)
        ensures
            r@ == component_name(self),
    {
        match self {
            ComponentType::I8 => "I8",
            ComponentType::U8 => "U8",
            ComponentType::I16 => "I16",
            ComponentType::U16 => "U16",
            ComponentType::U32 => "U32",
            ComponentType::F32 => "F32",
        }
    }
}

impl Shape {
    /// The name of this shape, as in `Vec3`.
    pub fn name(self) -> (r: &'static str)
        ensures
            r@ == shape_name(self),
    {
        match self {
            Shape::Scalar => "Scalar",
            Shape::Vec2 => "Vec2",
            Shape::Vec3 => "Vec3",
            Shape::Vec4 => "Vec4",
            Shape::Mat2 => "Mat2",
            Shape::Mat3 => "Mat3",
            Shape::Mat4 => "Mat4",
        }
    }
}

} // verus!
