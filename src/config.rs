//! Attribute names and configuration defaults shared by the library and the
//! command line tool.
use vstd::prelude::*;

verus! {

/// Name of the normal attribute on input meshes.
pub const NORMAL_ATTRIB_NAME: &'static str = "N";

/// Name of the tangent attribute on input meshes.
pub const TANGENT_ATTRIB_NAME: &'static str = "T";

/// Accessor name of vertex indices.
pub const INDEX_ATTRIB_NAME: &'static str = "I";

/// Accessor name of vertex positions.
pub const POSITION_ATTRIB_NAME: &'static str = "P";

/// Accessor name of position displacements.
pub const POSITION_DISPLACEMENT_ATTRIB_NAME: &'static str = "dP";

/// Accessor name of normal displacements.
pub const NORMAL_DISPLACEMENT_ATTRIB_NAME: &'static str = "dN";

/// Accessor name of tangent displacements.
pub const TANGENT_DISPLACEMENT_ATTRIB_NAME: &'static str = "dT";

/// Accessor name of keyframe times.
pub const TIME_ATTRIB_NAME: &'static str = "time";

/// Accessor name of morph target weights.
pub const WEIGHTS_ATTRIB_NAME: &'static str = "weights";

/// Default number of frames per second.
pub fn default_fps() -> (r: u32)
    ensures
        r == 24,
{
    24
}

/// Default number of frames to step by.
pub fn default_step() -> (r: u32)
    ensures
        r == 1,
{
    1
}

/// Default name of the per-face material attribute.
pub fn default_mtl_id() -> (r: String)
    ensures
        r@ == "mtl_id"@,
{
    "mtl_id".to_owned()
}

} // verus!
