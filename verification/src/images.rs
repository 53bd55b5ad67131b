//! Cover-image support: the path layout of stored images and the encoding
//! of thumbnail bytes for display. Reading, writing and scaling image files
//! belongs to the surrounding application; this module only computes paths
//! and encodes bytes.

use vstd::prelude::*;
use base64::Engine;
use crate::text::i64_dec_spec;
use crate::text::i32_to_string;

verus! {

/// Maximum thumbnail dimension in pixels (aspect ratio is kept).
pub const THUMBNAIL_MAX_SIZE: u32 = 300;

/// JPEG quality for thumbnails (0 to 100).
pub const THUMBNAIL_JPEG_QUALITY: u8 = 85;

/// What base64 encoding of bytes with the standard alphabet returns: the
/// result depends on the bytes alone.
pub uninterp spec fn base64_of(b: Seq<u8>) -> Seq<char>;

/// Image processor for thumbnail encoding and format conversion.
pub struct ImageProcessor;

impl ImageProcessor {
    /// Relies on `base64::engine::general_purpose::STANDARD.encode` to
    /// render bytes in base64.
    #[verifier::external_body]
    pub fn to_base64(bytes: &[u8]) -> (r: String)
        ensures
            r@ == base64_of(bytes@),
    {
        base64::engine::general_purpose::STANDARD.encode(bytes)
    }

    /// The data URL of JPEG thumbnail bytes, usable as an image source.
    pub fn to_data_url(bytes: &[u8]) -> (r: String)
        ensures
            r@ == "data:image/jpeg;base64,"@ + base64_of(bytes@),
    {
        let mut s = String::from_str("data:image/jpeg;base64,");
        let b = Self::to_base64(bytes);
        s.append(b.as_str());
        s
    }
}

/// The relative path of an entry's stored cover image:
/// `<vault_id>/<entry_id>.<extension>`.
pub open spec fn image_rel_path_spec(vault_id: int, entry_id: int, extension: Seq<char>) -> Seq<
    char,
> {
    i64_dec_spec(vault_id) + seq!['/'] + i64_dec_spec(entry_id) + seq!['.'] + extension
}

/// Image storage layout: all images live under an `images` directory inside
/// the application data directory, one subdirectory per vault.
pub struct ImageStorage {
    pub images_dir: String,
}

impl ImageStorage {
    /// A storage layout rooted at the given application data directory.
    pub fn new(app_data_dir: &str) -> (r: ImageStorage)
        ensures
            r.images_dir@ == app_data_dir@ + "/images"@,
    {
        let mut d = String::from_str(app_data_dir);
        d.append("/images");
        ImageStorage { images_dir: d }
    }

    /// The path of an entry's cover image under the storage root.
    pub fn get_image_path(&self, vault_id: i32, entry_id: i32, extension: &str) -> (r: String)
        ensures
            r@ == self.images_dir@ + seq!['/'] + image_rel_path_spec(
                vault_id as int,
                entry_id as int,
                extension@,
            ),
    {
        proof {
            reveal_strlit("/");
            reveal_strlit(".");
        }
        let mut p = self.images_dir.clone();
        p.append("/");
        let v = i32_to_string(vault_id);
        p.append(v.as_str());
        p.append("/");
        let e = i32_to_string(entry_id);
        p.append(e.as_str());
        p.append(".");
        p.append(extension);
        p
    }

    /// The directory holding a vault's images.
    pub fn get_vault_dir(&self, vault_id: i32) -> (r: String)
        ensures
            r@ == self.images_dir@ + seq!['/'] + i64_dec_spec(vault_id as int),
    {
        proof {
            reveal_strlit("/");
        }
        let mut p = self.images_dir.clone();
        p.append("/");
        let v = i32_to_string(vault_id);
        p.append(v.as_str());
        p
    }

    /// The full path of an image given its relative path.
    pub fn get_full_path(&self, relative_path: &str) -> (r: String)
        ensures
            r@ == self.images_dir@ + seq!['/'] + relative_path@,
    {
        proof {
            reveal_strlit("/");
        }
        let mut p = self.images_dir.clone();
        p.append("/");
        p.append(relative_path);
        p
    }
}

} // verus!
