//! Pictures made from a file's content: its blurhash placeholder and its
//! JPEG thumbnails, with the bookkeeping of where a thumbnail is stored.
use vstd::prelude::*;
use crate::config::{AppConfig, ConfigError};
use crate::file_info::{file_hash, hex_lower, sha512_digest};
use crate::paths::{extension, join, path_extension, path_join, relative_to};
use crate::thumb::{
    ThumbDimensions, ThumbGenerateResult, ThumbSize, ThumbSource, size_dims, size_key, thumb_file_name,
    thumb_file_name_spec, thumb_source, thumb_source_spec,
};

verus! {

broadcast use vstd::string::group_string_axioms;

/// The blurhash components across and down.
pub const BLURHASH_COMPONENTS: (u32, u32) = (3, 3);

/// The key under which a file's blurhash is stored among its data.
pub const FILE_DATA_BLURHASH_KEY: &'static str = "blurhash";

/// The width, height and RGBA pixels (four bytes each, row by row) that
/// `image` decodes from `data`, read as the format its file extension
/// `ext` names.
pub uninterp spec fn decoded_rgba(data: Seq<u8>, ext: Seq<char>) -> Option<(u32, u32, Seq<u8>)>;

/// The blurhash `blurhash::encode` computes for the given components and
/// RGBA pixels.
pub uninterp spec fn blurhash_text(cx: u32, cy: u32, width: u32, height: u32, rgba: Seq<u8>) -> Seq<
    char,
>;

/// The width, height and encoded bytes of `image`'s thumbnail of the
/// picture in `data` (format guessed from the content) fitted into the
/// given box, written in the format that the file extension `ext` names.
pub uninterp spec fn thumbnail_encoded(data: Seq<u8>, width: u32, height: u32, ext: Seq<char>) -> Option<
    (u32, u32, Seq<u8>),
>;

/// The file extension, and so the format, thumbnails are written in.
pub const THUMB_FORMAT_EXTENSION: &'static str = "jpeg";

/// `image::ImageReader::with_format` for the format that
/// `ImageFormat::from_extension` names, `decode` and `to_rgba8`, as
/// `image::open` does for a file with that extension. Claimed: the result
/// is `decoded_rgba` of the content and the extension, and the pixels are
/// four bytes for each of width times height.
#[verifier::external_body]
fn decode_rgba(data: &[u8], ext: &str) -> (r: Option<(u32, u32, Vec<u8>)>)
    ensures
        r is Some <==> decoded_rgba(data@, ext@) is Some,
        r matches Some(t) ==> decoded_rgba(data@, ext@) == Some((t.0, t.1, t.2@)),
        r matches Some(t) ==> t.2@.len() == 4 * t.0 * t.1,
{
    let format = match image::ImageFormat::from_extension(ext) {
        Some(f) => f,
        None => return None,
    };
    match image::ImageReader::with_format(std::io::Cursor::new(data), format).decode() {
        Ok(img) => {
            let rgba = img.to_rgba8();
            Some((rgba.width(), rgba.height(), rgba.into_raw()))
        },
        Err(_) => None,
    }
}

#[verifier::external_type_specification]
#[verifier::external_body]
pub struct ExBlurhashError(blurhash::Error);

/// `blurhash::encode`. Claimed, as its source shows: it fails exactly when
/// a component count lies outside 1 to 9, and otherwise gives
/// `blurhash_text`, written as one size character, one maximum character,
/// four for the mean colour and two for each other component. It indexes
/// four bytes per pixel and multiplies within `u32` (the row length
/// `4 * width` among others), so the pixels must be there and these byte
/// counts must fit.
#[verifier::external_body]
fn blurhash_encode(cx: u32, cy: u32, width: u32, height: u32, rgba: &[u8]) -> (r: Result<
    String,
    blurhash::Error,
>)
    requires
        4 * width * height <= rgba@.len(),
        4 * width * height <= u32::MAX,
        4 * width <= u32::MAX,
    ensures
        r is Err <==> !(1 <= cx <= 9 && 1 <= cy <= 9),
        r matches Ok(s) ==> s@ == blurhash_text(cx, cy, width, height, rgba@),
        r matches Ok(s) ==> s@.len() == 4 + 2 * cx * cy,
{
    blurhash::encode(cx, cy, width, height, rgba)
}

/// `image::ImageReader::with_guessed_format`, `decode`,
/// `DynamicImage::thumbnail` and `write_to` in the format that
/// `ImageFormat::from_extension` names for `ext`, as the thumbnailer does
/// before saving. Claimed: the result is `thumbnail_encoded` of the
/// content, the box and the extension; and, as `thumbnail`'s sizing
/// (`resize_dimensions`, keeping the aspect ratio with the smaller scale
/// factor and at least one pixel each way) shows, the thumbnail fits a box
/// of at least one pixel each way.
#[verifier::external_body]
fn render_thumbnail(data: &[u8], width: u32, height: u32, ext: &str) -> (r: Option<(u32, u32, Vec<u8>)>)
    ensures
        r is Some <==> thumbnail_encoded(data@, width, height, ext@) is Some,
        r matches Some(t) ==> thumbnail_encoded(data@, width, height, ext@) == Some((t.0, t.1, t.2@)),
        r matches Some(t) ==> (width >= 1 && height >= 1 ==> t.0 <= width && t.1 <= height),
{
    let format = match image::ImageFormat::from_extension(ext) { Some(f) => f, None => return None };
    let reader = match image::ImageReader::new(std::io::Cursor::new(data)).with_guessed_format() {
        Ok(r) => r,
        Err(_) => return None,
    };
    let thumb = match reader.decode() { Ok(img) => img.thumbnail(width, height), Err(_) => return None };
    let mut out = std::io::Cursor::new(Vec::new());
    match thumb.write_to(&mut out, format) {
        Ok(()) => Some((thumb.width(), thumb.height(), out.into_inner())),
        Err(_) => None,
    }
}

/// Why no blurhash could be made.
#[derive(Clone, Copy, Debug, PartialEq, Eq, Structural)]
pub enum BlurhashError {
    /// The file is no picture in the format its extension names.
    Decode,
    /// The picture has more pixel bytes than a `u32` counts.
    TooLarge,
}

/// The pixel bytes of a picture, as a count that must fit in `u32`.
pub open spec fn pixel_bytes(width: u32, height: u32) -> int {
    4 * width * height
}

/// The byte counts the encoder works with fit in `u32`: a row and all
/// pixels.
pub open spec fn pixels_fit(width: u32, height: u32) -> bool {
    4 * width <= u32::MAX && pixel_bytes(width, height) <= u32::MAX
}

/// The blurhash of decoded RGBA pixels, with the library's components.
pub fn blurhash_from_pixels(width: u32, height: u32, rgba: &[u8]) -> (r: Result<String, BlurhashError>)
    ensures
        r is Ok <==> (pixels_fit(width, height) && pixel_bytes(width, height) <= rgba@.len()),
        r matches Ok(s) ==> s@ == blurhash_text(3, 3, width, height, rgba@),
        r matches Ok(s) ==> s@.len() == 22,
        r matches Err(e) ==> e == BlurhashError::TooLarge,
{
    let w: u64 = width as u64;
    let h: u64 = height as u64;
    if w > (u32::MAX as u64) / 4 {
        return Err(BlurhashError::TooLarge);
    }
    assert(w * h <= u32::MAX * u32::MAX) by (nonlinear_arith)
        requires
            w <= u32::MAX,
            h <= u32::MAX,
    ;
    if w > 0 && h > (u32::MAX as u64) / 4 / w {
        assert(4 * w * h > u32::MAX) by (nonlinear_arith)
            requires
                w > 0,
                h > (u32::MAX as u64) / 4 / w,
        ;
        return Err(BlurhashError::TooLarge);
    }
    assert(4 * w * h <= u32::MAX) by (nonlinear_arith)
        requires
            w == 0 || h <= (u32::MAX as u64) / 4 / w,
    ;
    let n: u64 = 4 * w * h;
    if n > rgba.len() as u64 {
        return Err(BlurhashError::TooLarge);
    }
    match blurhash_encode(BLURHASH_COMPONENTS.0, BLURHASH_COMPONENTS.1, width, height, rgba) {
        Ok(s) => Ok(s),
        Err(_) => {
            // the library's components lie within the encoder's range
            proof {
                assert(false);
            }
            Err(BlurhashError::TooLarge)
        },
    }
}

/// The blurhash of the picture stored at `path` with content `data`: the
/// picture is decoded as the format the path's extension names.
pub open spec fn blurhash_spec(data: Seq<u8>, path: Seq<char>) -> Option<Seq<char>> {
    match extension(path) {
        None => None,
        Some(ext) => match decoded_rgba(data, ext) {
            None => None,
            Some(t) => if pixels_fit(t.0, t.1) {
                Some(blurhash_text(3, 3, t.0, t.1, t.2))
            } else {
                None
            },
        },
    }
}

/// The blurhash of a picture file, given its path and content.
pub fn blurhash_of_image(data: &[u8], path: &str) -> (r: Result<String, BlurhashError>)
    ensures
        r is Ok <==> blurhash_spec(data@, path@) is Some,
        r matches Ok(s) ==> blurhash_spec(data@, path@) == Some(s@),
        r matches Err(e) ==> (e == BlurhashError::Decode <==> (extension(path@) is None || decoded_rgba(
            data@,
            extension(path@)->0,
        ) is None)),
{
    let ext = match path_extension(path) {
        Some(e) => e,
        None => return Err(BlurhashError::Decode),
    };
    match decode_rgba(data, ext.as_str()) {
        None => Err(BlurhashError::Decode),
        Some((w, h, px)) => blurhash_from_pixels(w, h, px.as_slice()),
    }
}

/// The directory, inside the metadata directory, where thumbnails go.
pub open spec fn thumbs_directory_spec(metadata_directory: Seq<char>) -> Seq<char> {
    join(metadata_directory, "thumbs"@)
}

impl AppConfig {
    /// The directory where thumbnails go.
    pub fn thumbs_directory(&self) -> (r: String)
        ensures
            r@ == thumbs_directory_spec(self.metadata_directory@),
    {
        path_join(self.metadata_directory.as_str(), "thumbs")
    }
}

/// A thumbnail ready to be written: what is recorded of it, where it goes
/// and its JPEG bytes.
pub struct ImageThumbnail {
    pub result: ThumbGenerateResult,
    pub absolute_path: String,
    pub jpeg: Vec<u8>,
}

/// Why no thumbnail could be made.
#[derive(Clone, Copy, Debug, PartialEq, Eq, Structural)]
pub enum ThumbError {
    /// The content is no picture that can be scaled and written as JPEG.
    Render,
    /// The thumbnail's path does not lie inside the metadata directory.
    Path(ConfigError),
    /// The file is neither a picture nor a video.
    UnsupportedFileType,
}

/// The thumbnail of the picture in `data` for the file `id`, fitted into
/// `dimensions`: stored as `id.WxH.jpeg` in the thumbnails directory, and
/// recorded with its size, the hash of its bytes and its path relative to
/// the metadata directory.
pub fn image_thumbnail(app: &AppConfig, data: &[u8], id: &str, dimensions: ThumbDimensions) -> (r:
    Result<ImageThumbnail, ThumbError>)
    ensures
        r is Ok ==> thumbnail_encoded(data@, dimensions.width, dimensions.height, THUMB_FORMAT_EXTENSION@) is Some,
        thumbnail_encoded(data@, dimensions.width, dimensions.height, THUMB_FORMAT_EXTENSION@) is None ==> r == Err::<
            ImageThumbnail,
            ThumbError,
        >(ThumbError::Render),
        r matches Ok(t) ==> ({
            let (w, h, jpeg) = thumbnail_encoded(data@, dimensions.width, dimensions.height, THUMB_FORMAT_EXTENSION@)->0;
            let abs = join(
                thumbs_directory_spec(app.metadata_directory@),
                thumb_file_name_spec(id@, dimensions),
            );
            &&& t.jpeg@ == jpeg
            &&& t.result.width == w
            &&& t.result.height == h
            &&& t.result.hash@ == hex_lower(sha512_digest(jpeg))
            &&& t.absolute_path@ == abs
            &&& relative_to(abs, app.metadata_directory@) == Some(t.result.path@)
        }),
        r matches Ok(t) ==> (dimensions.width >= 1 && dimensions.height >= 1 ==> t.result.width
            <= dimensions.width && t.result.height <= dimensions.height),
        (thumbnail_encoded(data@, dimensions.width, dimensions.height, THUMB_FORMAT_EXTENSION@) is Some
            && relative_to(
            join(thumbs_directory_spec(app.metadata_directory@), thumb_file_name_spec(id@, dimensions)),
            app.metadata_directory@,
        ) is Some) ==> r is Ok,
        r matches Err(e) ==> ((e is Path) <==> (thumbnail_encoded(
            data@,
            dimensions.width,
            dimensions.height,
            THUMB_FORMAT_EXTENSION@,
        ) is Some && relative_to(
            join(thumbs_directory_spec(app.metadata_directory@), thumb_file_name_spec(id@, dimensions)),
            app.metadata_directory@,
        ) is None)),
{
    let name = thumb_file_name(id, dimensions);
    let dir = app.thumbs_directory();
    let absolute_path = path_join(dir.as_str(), name.as_str());
    let (w, h, jpeg) = match render_thumbnail(data, dimensions.width, dimensions.height, THUMB_FORMAT_EXTENSION) {
        Some(t) => t,
        None => return Err(ThumbError::Render),
    };
    let hash = file_hash(jpeg.as_slice());
    let path = match app.metadata_directory_relative(absolute_path.as_str()) {
        Ok(p) => p,
        Err(e) => return Err(ThumbError::Path(e)),
    };
    Ok(ImageThumbnail {
        result: ThumbGenerateResult { width: w, height: h, hash, path },
        absolute_path,
        jpeg,
    })
}

/// What making a thumbnail of one size of one file takes: how to get a
/// picture from the file, the key the thumbnail is recorded under and the
/// box it is fitted into.
#[derive(Debug)]
pub struct ThumbJob {
    pub source: ThumbSource,
    pub key: String,
    pub dimensions: ThumbDimensions,
}

/// The thumbnail job for a file of type `file_type` at size `size`; files
/// that are neither pictures nor videos have none.
pub fn thumbnail_job(file_type: &str, size: ThumbSize) -> (r: Result<ThumbJob, ThumbError>)
    ensures
        r is Err <==> thumb_source_spec(file_type@) is None,
        r matches Err(e) ==> e == ThumbError::UnsupportedFileType,
        r matches Ok(j) ==> (thumb_source_spec(file_type@) == Some(j.source) && j.key@ == size_key(size)
            && j.dimensions == size_dims(size)),
{
    let key = size.to_string();
    let dimensions = ThumbDimensions::from(size);
    match thumb_source(file_type) {
        Some(source) => Ok(ThumbJob { source, key, dimensions }),
        None => Err(ThumbError::UnsupportedFileType),
    }
}

/// What to do when a thumbnail is asked for.
#[derive(Clone, Copy, Debug, PartialEq, Eq, Structural)]
pub enum ThumbLookup {
    /// Hand out the recorded thumbnail.
    Reuse,
    /// Make the thumbnail anew, first dropping a record whose file is gone.
    Generate { discard_stored: bool },
    /// No thumbnail can be made: the file's metadata is missing. A record
    /// whose file is gone is dropped all the same.
    MissingMetadata { discard_stored: bool },
}

/// The decision taken on a thumbnail request: a recorded thumbnail whose
/// file still exists is reused; otherwise its record is dropped, and a new
/// thumbnail is made if the file's metadata (its type) is known.
pub fn thumb_lookup(has_stored: bool, stored_file_exists: bool, has_metadata: bool) -> (r: ThumbLookup)
    ensures
        (has_stored && stored_file_exists) ==> r == ThumbLookup::Reuse,
        !(has_stored && stored_file_exists) && has_metadata ==> r == (ThumbLookup::Generate {
            discard_stored: has_stored,
        }),
        !(has_stored && stored_file_exists) && !has_metadata ==> r == (ThumbLookup::MissingMetadata {
            discard_stored: has_stored,
        }),
{
    if has_stored && stored_file_exists {
        ThumbLookup::Reuse
    } else if has_metadata {
        ThumbLookup::Generate { discard_stored: has_stored }
    } else {
        ThumbLookup::MissingMetadata { discard_stored: has_stored }
    }
}

/// The arguments that make ffmpeg write the first frame of a video to a
/// picture file.
pub open spec fn frame_args_spec(video: Seq<char>, out: Seq<char>) -> Seq<Seq<char>> {
    seq!["-hide_banner"@, "-y"@, "-i"@, video, "-vframes"@, "1"@, out]
}

/// The ffmpeg arguments that extract the first frame of `video` to `out`.
pub fn first_frame_args(video: &str, out: &str) -> (r: Vec<String>)
    ensures
        r@.len() == 7,
        forall|i: int| 0 <= i < 7 ==> #[trigger] r@[i]@ == frame_args_spec(video@, out@)[i],
{
    let mut r: Vec<String> = Vec::new();
    r.push(crate::text::string_from("-hide_banner"));
    r.push(crate::text::string_from("-y"));
    r.push(crate::text::string_from("-i"));
    r.push(crate::text::string_from(video));
    r.push(crate::text::string_from("-vframes"));
    r.push(crate::text::string_from("1"));
    r.push(crate::text::string_from(out));
    r
}

} // verus!
