//! Texture and sampler settings.
use vstd::prelude::*;

verus! {

/// Magnification filter.
#[derive(Clone, Copy, Debug, PartialEq, Eq, Structural)]
pub enum MagFilter {
    /// Corresponds to `GL_NEAREST`.
    Nearest,
    /// Corresponds to `GL_LINEAR`.
    Linear,
    /// No filter is set.
    Unset,
}

/// Minification filter.
#[derive(Clone, Copy, Debug, PartialEq, Eq, Structural)]
pub enum MinFilter {
    /// Corresponds to `GL_NEAREST`.
    Nearest,
    /// Corresponds to `GL_LINEAR`.
    Linear,
    /// Corresponds to `GL_NEAREST_MIPMAP_NEAREST`.
    NearestMipmapNearest,
    /// Corresponds to `GL_LINEAR_MIPMAP_NEAREST`.
    LinearMipmapNearest,
    /// Corresponds to `GL_NEAREST_MIPMAP_LINEAR`.
    NearestMipmapLinear,
    /// Corresponds to `GL_LINEAR_MIPMAP_LINEAR`.
    LinearMipmapLinear,
    /// No filter is set.
    Unset,
}

/// Texture coordinate wrapping mode.
#[derive(Clone, Copy, Debug, PartialEq, Eq, Structural)]
pub enum WrappingMode {
    /// Corresponds to `GL_CLAMP_TO_EDGE`.
    ClampToEdge,
    /// Corresponds to `GL_MIRRORED_REPEAT`.
    MirroredRepeat,
    /// Corresponds to `GL_REPEAT`.
    Repeat,
}

impl MagFilter {
    /// The OpenGL enumeration value of the filter, if one is set.
    pub fn gl_code(self) -> (r: Option<u32>)
        ensures
            r == match self {
                MagFilter::Nearest => Some(9728u32),
                MagFilter::Linear => Some(9729u32),
                MagFilter::Unset => None,
            },
    {
        match self {
            MagFilter::Nearest => Some(9728),
            MagFilter::Linear => Some(9729),
            MagFilter::Unset => None,
        }
    }
}

impl Default for MagFilter {
    fn default() -> (r: MagFilter)
        ensures
            r == MagFilter::Unset,
    {
        MagFilter::Unset
    }
}

impl MinFilter {
    /// The OpenGL enumeration value of the filter, if one is set.
    pub fn gl_code(self) -> (r: Option<u32>)
        ensures
            r == match self {
                MinFilter::Nearest => Some(9728u32),
                MinFilter::Linear => Some(9729u32),
                MinFilter::NearestMipmapNearest => Some(9984u32),
                MinFilter::LinearMipmapNearest => Some(9985u32),
                MinFilter::NearestMipmapLinear => Some(9986u32),
                MinFilter::LinearMipmapLinear => Some(9987u32),
                MinFilter::Unset => None,
            },
    {
        match self {
            MinFilter::Nearest => Some(9728),
            MinFilter::Linear => Some(9729),
            MinFilter::NearestMipmapNearest => Some(9984),
            MinFilter::LinearMipmapNearest => Some(9985),
            MinFilter::NearestMipmapLinear => Some(9986),
            MinFilter::LinearMipmapLinear => Some(9987),
            MinFilter::Unset => None,
        }
    }
}

impl Default for MinFilter {
    fn default() -> (r: MinFilter)
        ensures
            r == MinFilter::Unset,
    {
        MinFilter::Unset
    }
}

impl WrappingMode {
    /// The OpenGL enumeration value of the wrapping mode.
    pub fn gl_code(self) -> (r: u32)
        ensures
            r == match self {
                WrappingMode::ClampToEdge => 33071u32,
                WrappingMode::MirroredRepeat => 33648u32,
                WrappingMode::Repeat => 10497u32,
            },
    {
        match self {
            WrappingMode::ClampToEdge => 33071,
            WrappingMode::MirroredRepeat => 33648,
            WrappingMode::Repeat => 10497,
        }
    }
}

impl Default for WrappingMode {
    fn default() -> (r: WrappingMode)
        ensures
            r == WrappingMode::Repeat,
    {
        WrappingMode::Repeat
    }
}

/// Where the image of a texture comes from.
#[derive(Clone, Debug)]
pub enum ImageInfo {
    /// Embedded in binary outputs and referenced otherwise.
    Auto(String),
    /// Referenced by its path.
    Uri(String),
    /// Read from its path and embedded in the buffer.
    Embed(String),
}

impl Default for ImageInfo {
    fn default() -> (r: ImageInfo)
        ensures
            r matches ImageInfo::Auto(p) && p@.len() == 0,
    {
        ImageInfo::Auto(String::new())
    }
}

/// A texture: an image and its sampler settings.
#[derive(Clone, Debug)]
pub struct TextureInfo {
    pub image: ImageInfo,
    pub wrap_s: WrappingMode,
    pub wrap_t: WrappingMode,
    pub mag_filter: MagFilter,
    pub min_filter: MinFilter,
}

impl TextureInfo {
    /// A texture of the given image with the default sampler settings:
    /// repeating in both directions, with no filters set.
    pub fn with_image(image: ImageInfo) -> (r: TextureInfo)
        ensures
            r.image == image,
            r.wrap_s == WrappingMode::Repeat,
            r.wrap_t == WrappingMode::Repeat,
            r.mag_filter == MagFilter::Unset,
            r.min_filter == MinFilter::Unset,
    {
        TextureInfo {
            image,
            wrap_s: WrappingMode::Repeat,
            wrap_t: WrappingMode::Repeat,
            mag_filter: MagFilter::Unset,
            min_filter: MinFilter::Unset,
        }
    }
}

impl Default for TextureInfo {
    fn default() -> (r: TextureInfo)
        ensures
            r.image matches ImageInfo::Auto(p) && p@.len() == 0,
            r.wrap_s == WrappingMode::Repeat,
            r.wrap_t == WrappingMode::Repeat,
            r.mag_filter == MagFilter::Unset,
            r.min_filter == MinFilter::Unset,
    {
        TextureInfo::with_image(ImageInfo::Auto(String::new()))
    }
}

} // verus!
