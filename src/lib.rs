//! Conversion of frame-numbered mesh sequences into animated glTF assets.
//!
//! The library holds the integer and byte level logic of the conversion: the
//! typed attribute registry, per-face material grouping, the topology change
//! segmenter, the binary buffer and accessor layout, primitive assembly and
//! the binary container framing.
pub mod attrib;
pub mod bytes;
pub mod builder;
pub mod config;
pub mod discover;
pub mod export;
pub mod segment;
pub mod texture;
pub mod material;
pub mod output;
pub mod primitives;
pub mod utils;

pub use attrib::{
    group_mtls, material_ids_from, AttribTransfer, Attribute, ComponentType, MaterialGroups,
    MaterialIds, Shape, TextureAttribute, Type,
};
pub use builder::{Accessor, AnimationAccessors, BufferView, DocumentBuilder, Sparse, Target};
pub use export::{build_gltf_parts, build_node, GltfParts, Morph, Node, Vec3Data};
pub use material::{LocalMaterial, MaterialRegistry, TextureRef};
pub use output::{align_to_multiple_of_four, process_auto_textures, to_padded_byte_vector, Output};
pub use segment::{into_nodes, Frame, MorphPlan, MorphSource, NodePlan, Topology};
pub use texture::{ImageInfo, MagFilter, MinFilter, TextureInfo, WrappingMode};
pub use utils::{print_info, print_warnings, push_message, remove_braces};
