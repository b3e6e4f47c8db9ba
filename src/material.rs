//! Materials: texture references and the registration of materials found in
//! input meshes.
use vstd::prelude::*;

use crate::attrib::{group_mtls, local_ids_ok, MaterialGroups, MaterialIds};
use crate::texture::{ImageInfo, TextureInfo};

verus! {

/// The texture used by a material.
#[derive(Clone, Copy, Debug, PartialEq, Eq, Structural)]
pub enum TextureRef {
    /// A texture, by its index among the textures, read with the texture
    /// coordinate attribute at index `texcoord`.
    Texture { index: u32, texcoord: u32 },
    /// No texture is set.
    Unset,
}

impl TextureRef {
    /// The texture index and texture coordinate index, if a texture is set.
    pub fn into_option(self) -> (r: Option<(u32, u32)>)
        ensures
            r == match self {
                TextureRef::Texture { index, texcoord } => Some((index, texcoord)),
                TextureRef::Unset => None,
            },
    {
        match self {
            TextureRef::Texture { index, texcoord } => Some((index, texcoord)),
            TextureRef::Unset => None,
        }
    }
}

impl Default for TextureRef {
    fn default() -> (r: TextureRef)
        ensures
            r == TextureRef::Unset,
    {
        TextureRef::Unset
    }
}

/// A material described by an input mesh: its name, the path of its diffuse
/// texture if it has one, and its other properties encoded as integers.
#[derive(Clone, Debug)]
pub struct LocalMaterial {
    pub name: String,
    pub texture: Option<String>,
    pub properties: Vec<u32>,
}

/// Whether two optional strings are equal.
pub open spec fn same_opt_string(a: Option<String>, b: Option<String>) -> bool {
    match (a, b) {
        (None, None) => true,
        (Some(x), Some(y)) => x@ == y@,
        _ => false,
    }
}

/// Whether two local materials are structurally equal.
pub open spec fn same_material(a: LocalMaterial, b: LocalMaterial) -> bool {
    &&& a.name@ == b.name@
    &&& same_opt_string(a.texture, b.texture)
    &&& a.properties@ == b.properties@
}

fn eq_string(a: &String, b: &String) -> (r: bool)
    ensures
        r == (a@ == b@),
{
    *a == *b
}

fn eq_u32s(a: &Vec<u32>, b: &Vec<u32>) -> (r: bool)
    ensures
        r == (a@ == b@),
{
    if a.len() != b.len() {
        return false;
    }
    let mut i: usize = 0;
    while i < a.len()
        invariant
            i <= a@.len(),
            a@.len() == b@.len(),
            forall|j: int| 0 <= j < i ==> a@[j] == b@[j],
        decreases a@.len() - i,
    {
        if a[i] != b[i] {
            return false;
        }
        i = i + 1;
    }
    assert(a@ =~= b@);
    true
}

fn eq_material(a: &LocalMaterial, b: &LocalMaterial) -> (r: bool)
    ensures
        r == same_material(*a, *b),
{
    let same_texture = match (&a.texture, &b.texture) {
        (None, None) => true,
        (Some(x), Some(y)) => eq_string(x, y),
        _ => false,
    };
    eq_string(&a.name, &b.name) && same_texture && eq_u32s(&a.properties, &b.properties)
}

/// A copy of a local material.
fn copy_material(m: &LocalMaterial) -> (r: LocalMaterial)
    ensures
        same_material(r, *m),
{
    let texture = match &m.texture {
        Some(t) => Some(t.clone()),
        None => None,
    };
    let mut properties: Vec<u32> = Vec::new();
    let mut i: usize = 0;
    while i < m.properties.len()
        invariant
            i <= m.properties@.len(),
            properties@ == m.properties@.take(i as int),
        decreases m.properties@.len() - i,
    {
        properties.push(m.properties[i]);
        i = i + 1;
        assert(properties@ =~= m.properties@.take(i as int));
    }
    assert(properties@ =~= m.properties@);
    LocalMaterial { name: m.name.clone(), texture, properties }
}

/// Whether `g` gives, for each face, the global index in `reg` of a
/// material structurally equal to the face's local material `ms[l[f]]`.
pub open spec fn promoted_ids(g: Seq<u32>, reg: MaterialRegistry, l: Seq<u32>, ms: Seq<LocalMaterial>) -> bool {
    &&& g.len() == l.len()
    &&& forall|f: int|
        0 <= f < g.len() ==> reg.num_configured <= #[trigger] g[f] < reg.spec_num_materials()
            && same_material(reg.local@[g[f] - reg.num_configured], ms[l[f] as int])
}

/// The global material table as far as this library needs it: the number of
/// configured materials, followed by the materials registered from input
/// meshes with the texture each refers to, and the textures.
#[derive(Clone, Debug)]
pub struct MaterialRegistry {
    pub num_configured: usize,
    pub local: Vec<LocalMaterial>,
    pub local_textures: Vec<TextureRef>,
    pub textures: Vec<TextureInfo>,
}

impl MaterialRegistry {
    /// One texture reference per registered material, and no two registered
    /// materials equal.
    pub open spec fn wf(&self) -> bool {
        &&& self.local@.len() == self.local_textures@.len()
        &&& forall|i: int, j: int|
            0 <= i < j < self.local@.len() ==> !same_material(
                #[trigger] self.local@[i],
                #[trigger] self.local@[j],
            )
    }

    /// A registry of `num_configured` configured materials and the given textures.
    pub fn new(num_configured: usize, textures: Vec<TextureInfo>) -> (r: MaterialRegistry)
        ensures
            r.wf(),
            r.num_configured == num_configured,
            r.local@.len() == 0,
            r.textures@ == textures@,
    {
        MaterialRegistry { num_configured, local: Vec::new(), local_textures: Vec::new(), textures }
    }

    /// Total number of materials: configured and registered.
    pub open spec fn spec_num_materials(&self) -> nat {
        (self.num_configured + self.local@.len()) as nat
    }

    /// Returns the global index of a material structurally equal to `m`,
    /// registering `m` first if there is none. A newly registered material
    /// with a texture path adds a texture of that image, which the material
    /// refers to with texture coordinate zero when `has_tex_coords`.
    #[verifier::loop_isolation(false)]
    pub fn register(&mut self, m: &LocalMaterial, has_tex_coords: bool) -> (r: u32)
        requires
            old(self).wf(),
            old(self).spec_num_materials() < u32::MAX,
            old(self).textures@.len() < u32::MAX,
        ensures
            final(self).wf(),
            final(self).num_configured == old(self).num_configured,
            old(self).num_configured <= r < final(self).spec_num_materials(),
            same_material(final(self).local@[r - old(self).num_configured], *m),
            (exists|j: int|
                0 <= j < old(self).local@.len() && same_material(old(self).local@[j], *m))
                ==> final(self).local@ == old(self).local@ && final(self).local_textures@ == old(
                self,
            ).local_textures@ && final(self).textures@ == old(self).textures@,
            !(exists|j: int|
                0 <= j < old(self).local@.len() && same_material(old(self).local@[j], *m)) ==> {
                &&& r == old(self).spec_num_materials()
                &&& final(self).local@.len() == old(self).local@.len() + 1
                &&& final(self).local@.take(old(self).local@.len() as int) == old(self).local@
                &&& final(self).local_textures@.take(old(self).local@.len() as int) == old(
                    self,
                ).local_textures@
                &&& (m.texture.is_none() ==> final(self).textures@ == old(self).textures@
                    && final(self).local_textures@.last() == TextureRef::Unset)
                &&& (m.texture.is_some() ==> final(self).textures@.len() == old(self).textures@.len()
                    + 1 && final(self).textures@.take(old(self).textures@.len() as int) == old(
                    self,
                ).textures@ && (final(self).textures@.last().image matches ImageInfo::Auto(p)
                    && p@ == m.texture.unwrap()@) && final(self).local_textures@.last() == (
                if has_tex_coords {
                    TextureRef::Texture { index: old(self).textures@.len() as u32, texcoord: 0 }
                } else {
                    TextureRef::Unset
                }))
            },
    {
        let mut j: usize = 0;
        while j < self.local.len()
            invariant
                j <= self.local@.len(),
                forall|i: int| 0 <= i < j ==> !same_material(self.local@[i], *m),
            decreases self.local@.len() - j,
        {
            if eq_material(&self.local[j], m) {
                return (self.num_configured + j) as u32;
            }
            j = j + 1;
        }
        let id = (self.num_configured + self.local.len()) as u32;
        let ghost old_textures = self.textures@;
        let tex = match &m.texture {
            Some(path) => {
                let index = self.textures.len() as u32;
                self.textures.push(TextureInfo::with_image(ImageInfo::Auto(path.clone())));
                assert(self.textures@.take(old_textures.len() as int) =~= old_textures);
                if has_tex_coords {
                    TextureRef::Texture { index, texcoord: 0 }
                } else {
                    TextureRef::Unset
                }
            },
            None => TextureRef::Unset,
        };
        let ghost old_local = self.local@;
        let ghost old_local_textures = self.local_textures@;
        self.local.push(copy_material(m));
        self.local_textures.push(tex);
        assert(self.local@.take(old_local.len() as int) =~= old_local);
        assert(self.local_textures@.take(old_local.len() as int) =~= old_local_textures);
        assert forall|i: int, k: int|
            0 <= i < k < self.local@.len() implies !same_material(
            #[trigger] self.local@[i],
            #[trigger] self.local@[k],
        ) by {
            if k < old_local.len() {
                assert(self.local@[i] == old_local[i] && self.local@[k] == old_local[k]);
            } else {
                assert(self.local@[i] == old_local[i]);
                assert(!same_material(old_local[i], *m));
            }
        }
        id
    }

    /// Makes a material assignment global. Global assignments are returned
    /// as they are. The materials of a local assignment are registered
    /// (structurally equal materials share one global index) and the faces
    /// are grouped by the global index of their material.
    pub fn promote(&mut self, ids: Option<MaterialIds>, has_tex_coords: bool) -> (r: Option<MaterialGroups>)
        requires
            old(self).wf(),
            ids matches Some(MaterialIds::Local { ids: l, materials: ms }) ==> local_ids_ok(
                l@,
                ms@.len(),
            ) && old(self).spec_num_materials() + l@.len() < u32::MAX && old(self).textures@.len()
                + l@.len() < u32::MAX,
        ensures
            final(self).wf(),
            final(self).num_configured == old(self).num_configured,
            final(self).local@.take(old(self).local@.len() as int) == old(self).local@,
            ids.is_none() ==> r.is_none(),
            ids matches Some(MaterialIds::Global { map }) ==> r == Some(map),
            ids matches Some(MaterialIds::Local { ids: l, materials: ms }) ==> {
                &&& r.is_some()
                &&& exists|g: Seq<u32>| #[trigger] promoted_ids(g, *final(self), l@, ms@) && r.unwrap().groups(g)
            },
    {
        match ids {
            None => None,
            Some(MaterialIds::Global { map }) => Some(map),
            Some(MaterialIds::Local { ids: l, materials: ms }) => {
                let mut gids: Vec<u32> = Vec::new();
                let mut f: usize = 0;
                while f < l.len()
                    invariant
                        self.wf(),
                        local_ids_ok(l@, ms@.len()),
                        f <= l@.len(),
                        gids@.len() == f,
                        self.num_configured == old(self).num_configured,
                        self.spec_num_materials() <= old(self).spec_num_materials() + f,
                        self.textures@.len() <= old(self).textures@.len() + f,
                        old(self).spec_num_materials() + l@.len() < u32::MAX,
                        old(self).textures@.len() + l@.len() < u32::MAX,
                        self.local@.take(old(self).local@.len() as int) == old(self).local@,
                        self.local@.len() >= old(self).local@.len(),
                        forall|k: int|
                            0 <= k < f ==> old(self).num_configured <= #[trigger] gids@[k]
                                < self.spec_num_materials() && same_material(
                                self.local@[gids@[k] - old(self).num_configured],
                                ms@[l@[k] as int],
                            ),
                    decreases l@.len() - f,
                {
                    let ghost before = self.local@;
                    let g = self.register(&ms[l[f] as usize], has_tex_coords);
                    assert(self.local@.take(before.len() as int) =~= before);
                    gids.push(g);
                    assert forall|k: int|
                        0 <= k < f + 1 implies old(self).num_configured <= #[trigger] gids@[k]
                        < self.spec_num_materials() && same_material(
                        self.local@[gids@[k] - old(self).num_configured],
                        ms@[l@[k] as int],
                    ) by {
                        if k < f {
                            assert(self.local@[gids@[k] - old(self).num_configured] == before[gids@[k]
                                - old(self).num_configured]);
                        }
                    }
                    assert(self.local@.take(old(self).local@.len() as int) =~= before.take(
                        old(self).local@.len() as int,
                    ));
                    f = f + 1;
                }
                let map = group_mtls(&gids);
                assert(promoted_ids(gids@, *self, l@, ms@) && map.groups(gids@));
                Some(map)
            },
        }
    }
}

} // verus!
