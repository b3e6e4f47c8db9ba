//! Output container: the choice between a binary and a standard glTF, and
//! the framing of the binary container.
use vstd::prelude::*;

use crate::texture::{ImageInfo, TextureInfo};
use crate::utils::str_eq;

verus! {

/// What `std::path::Path::extension` returns for a path, as characters.
pub uninterp spec fn extension_of(p: Seq<char>) -> Option<Seq<char>>;

/// What `std::path::Path::with_extension` returns for a path and an extension.
pub uninterp spec fn with_extension_of(p: Seq<char>, ext: Seq<char>) -> Seq<char>;

/// What `str::to_lowercase` returns for a string.
pub uninterp spec fn lower_of(s: Seq<char>) -> Seq<char>;

/// Relies on `std::path::Path::extension`: the extension of the file name
/// of a path, if it has one.
#[verifier::external_body]
fn path_extension(p: &str) -> (r: Option<String>)
    ensures
        match r {
            Some(e) => extension_of(p@) == Some(e@),
            None => extension_of(p@).is_none(),
        },
{
    match std::path::Path::new(p).extension() {
        Some(e) => Some(e.to_string_lossy().into_owned()),
        None => None,
    }
}

/// Relies on `std::path::Path::with_extension`: the path with its extension
/// replaced by, or extended with, `ext`. It panics when `ext` holds a path
/// separator, which the precondition rules out.
#[verifier::external_body]
fn path_with_extension(p: &str, ext: &str) -> (r: String)
    requires
        forall|i: int| 0 <= i < ext@.len() ==> #[trigger] ext@[i] != '/' && ext@[i] != '\\',
    ensures
        r@ == with_extension_of(p@, ext@),
{
    std::path::Path::new(p).with_extension(ext).to_string_lossy().into_owned()
}

/// Relies on `str::to_lowercase`: the result depends on the characters alone.
#[verifier::external_body]
fn lowercase(s: &str) -> (r: String)
    ensures
        r@ == lower_of(s@),
{
    s.to_lowercase()
}

/// The kind and files of the output.
#[derive(Clone, Debug)]
pub enum Output {
    /// A glTF JSON file and a separate binary buffer file.
    Standard { binary_path: String, gltf_path: String },
    /// A single binary glTF file.
    Binary { glb_path: String },
}

/// Whether an output path with this extension is written as a binary glTF:
/// only the `glb` extension is.
pub open spec fn is_binary_ext(ext: Option<Seq<char>>) -> bool {
    ext == Some("glb"@)
}

impl Output {
    /// Determines the output from the output file name: a `.glb` extension
    /// gives a binary glTF at that path; any other extension, or none, gives
    /// a standard glTF at that path, with its buffer in a `.bin` file of the
    /// same name.
    pub fn from_ext(output: String) -> (r: Output)
        ensures
            is_binary_ext(extension_of(output@)) ==> (r matches Output::Binary { glb_path } &&
                glb_path@ == output@),
            !is_binary_ext(extension_of(output@)) ==> (r matches Output::Standard {
                binary_path,
                gltf_path,
            } && binary_path@ == with_extension_of(output@, "bin"@) && gltf_path@ == output@),
    {
        let ext = path_extension(output.as_str());
        let binary = match &ext {
            None => false,
            Some(e) => str_eq(e.as_str(), "glb"),
        };
        if binary {
            Output::Binary { glb_path: output }
        } else {
            proof {
                reveal_strlit("bin");
            }
            let binary_path = path_with_extension(output.as_str(), "bin");
            Output::Standard { binary_path, gltf_path: output }
        }
    }

    /// Whether this is a binary glTF output.
    pub open spec fn spec_is_binary(&self) -> bool {
        self matches Output::Binary { .. }
    }
}

/// The MIME type of an embedded image, by the extension of its path:
/// `jpeg` and `jpg` are JPEG images and `png` is a PNG image, in any case.
pub open spec fn mime_of(ext: Option<Seq<char>>) -> Option<Seq<char>> {
    match ext {
        Some(e) => if lower_of(e) == "jpeg"@ || lower_of(e) == "jpg"@ {
            Some("image/jpeg"@)
        } else if lower_of(e) == "png"@ {
            Some("image/png"@)
        } else {
            None
        },
        None => None,
    }
}

/// The MIME type of an image to embed, or `None` when its extension is
/// neither a JPEG nor a PNG extension.
pub fn image_mime_type(path: &str) -> (r: Option<String>)
    ensures
        match r {
            Some(m) => mime_of(extension_of(path@)) == Some(m@),
            None => mime_of(extension_of(path@)).is_none(),
        },
{
    match path_extension(path) {
        None => None,
        Some(ext) => {
            let lower = lowercase(ext.as_str());
            if str_eq(lower.as_str(), "jpeg") || str_eq(lower.as_str(), "jpg") {
                Some("image/jpeg".to_owned())
            } else if str_eq(lower.as_str(), "png") {
                Some("image/png".to_owned())
            } else {
                None
            }
        },
    }
}

/// The image source once the output is known: automatic images are embedded
/// in binary outputs and referenced by path otherwise.
pub open spec fn resolved_image(img: ImageInfo, binary: bool) -> ImageInfo {
    match img {
        ImageInfo::Auto(p) => if binary {
            ImageInfo::Embed(p)
        } else {
            ImageInfo::Uri(p)
        },
        other => other,
    }
}

/// Resolves every automatic image: embedded for a binary output and
/// referenced otherwise. Other settings are kept.
pub fn process_auto_textures(textures: &mut Vec<TextureInfo>, output: &Output)
    ensures
        final(textures)@.len() == old(textures)@.len(),
        forall|i: int|
            0 <= i < final(textures)@.len() ==> #[trigger] final(textures)@[i] == (TextureInfo {
                image: resolved_image(old(textures)@[i].image, output.spec_is_binary()),
                ..old(textures)@[i]
            }),
{
    let binary = match output {
        Output::Binary { .. } => true,
        Output::Standard { .. } => false,
    };
    let mut rest: Vec<TextureInfo> = Vec::new();
    std::mem::swap(textures, &mut rest);
    let ghost orig = rest@;
    let ghost n = orig.len();
    while rest.len() > 0
        invariant
            n == orig.len(),
            textures@.len() + rest@.len() == n,
            rest@ == orig.subrange(n - rest@.len(), n as int),
            forall|i: int|
                0 <= i < textures@.len() ==> #[trigger] textures@[i] == (TextureInfo {
                    image: resolved_image(orig[i].image, binary),
                    ..orig[i]
                }),
        decreases rest@.len(),
    {
        let ghost before = rest@;
        let ghost k = textures@.len() as int;
        assert(before[0] == orig[k]);
        let t = rest.remove(0);
        let image = match t.image {
            ImageInfo::Auto(p) => if binary {
                ImageInfo::Embed(p)
            } else {
                ImageInfo::Uri(p)
            },
            other => other,
        };
        let ghost prev_textures = textures@;
        textures.push(TextureInfo { image, ..t });
        assert(rest@ =~= orig.subrange(n - rest@.len(), n as int));
        assert forall|i: int| 0 <= i < textures@.len() implies #[trigger] textures@[i] == (TextureInfo {
            image: resolved_image(orig[i].image, binary),
            ..orig[i]
        }) by {
            if i < k {
                assert(textures@[i] == prev_textures[i]);
            }
        }
    }
}

/// Number of zero bytes that pad `n` bytes to a multiple of four.
pub open spec fn padding(n: nat) -> nat {
    ((4 - n % 4) % 4) as nat
}

proof fn lemma_padding(n: nat)
    ensures
        (n + padding(n)) % 4 == 0,
        padding(n) < 4,
{
    let m = n % 4;
    let q = n / 4;
    assert(n == 4 * q + m) by (nonlinear_arith)
        requires m == n % 4, q == n / 4;
    if m == 0 {
        assert(padding(n) == 0);
    } else {
        assert(padding(n) == 4 - m);
        assert(n + padding(n) == 4 * (q + 1)) by (nonlinear_arith)
            requires n == 4 * q + m, padding(n) == 4 - m;
        assert((4 * (q + 1)) % 4 == 0) by (nonlinear_arith);
    }
}

/// The least multiple of four that is at least `n`.
pub fn align_to_multiple_of_four(n: u32) -> (r: u32)
    requires
        n <= u32::MAX - 3,
    ensures
        r == n + padding(n as nat),
        r % 4 == 0,
{
    proof {
        lemma_padding(n as nat);
    }
    let pad = (4 - n % 4) % 4;
    n + pad
}

/// The bytes followed by as many zero bytes as it takes to make the length
/// a multiple of four.
pub fn to_padded_byte_vector(data: Vec<u8>) -> (r: Vec<u8>)
    ensures
        r@.len() == data@.len() + padding(data@.len()),
        r@.len() % 4 == 0,
        r@.take(data@.len() as int) == data@,
        forall|i: int| data@.len() <= i < r@.len() ==> #[trigger] r@[i] == 0,
{
    let mut v = data;
    let ghost d = v@;
    proof {
        lemma_padding(d.len());
    }
    let pad = (4 - v.len() % 4) % 4;
    let mut i: usize = 0;
    assert(v@.take(d.len() as int) =~= d);
    while i < pad
        invariant
            i <= pad,
            pad == padding(d.len()),
            v@.len() == d.len() + i,
            v@.take(d.len() as int) == d,
            forall|k: int| d.len() <= k < v@.len() ==> #[trigger] v@[k] == 0,
        decreases pad - i,
    {
        let ghost prev = v@;
        v.push(0);
        assert(v@.take(d.len() as int) =~= prev.take(d.len() as int));
        i = i + 1;
    }
    v
}

/// The length of the JSON chunk and the binary chunk together, each padded
/// to a multiple of four bytes; the chunk and file headers are not counted.
pub fn glb_length(json_len: u32, bin_len: u32) -> (r: u32)
    requires
        json_len <= u32::MAX - 3,
        bin_len <= u32::MAX - 3,
        json_len + bin_len + 6 <= u32::MAX,
    ensures
        r == json_len + padding(json_len as nat) + bin_len + padding(bin_len as nat),
        r % 4 == 0,
{
    proof {
        lemma_padding(json_len as nat);
        lemma_padding(bin_len as nat);
    }
    align_to_multiple_of_four(json_len) + align_to_multiple_of_four(bin_len)
}

} // verus!
