//! Thumbnail sizes: the dimensions each size stands for, the key under which
//! a thumbnail is recorded, and the file it is written to.
use vstd::prelude::*;
use crate::text::{dec, u64_to_string, string_from, push_str, starts_with_at, chars_of};
use crate::time::Timestamp;

verus! {

broadcast use vstd::string::group_string_axioms;

/// Width and height of a thumbnail, in pixels.
#[derive(Clone, Copy, Debug, PartialEq, Eq, Structural)]
pub struct ThumbDimensions {
    pub width: u32,
    pub height: u32,
}

/// The text `WxH` of dimensions.
pub open spec fn dims_text(d: ThumbDimensions) -> Seq<char> {
    dec(d.width as nat) + seq!['x'] + dec(d.height as nat)
}

impl ThumbDimensions {
    pub fn new(width: u32, height: u32) -> (r: Self)
        ensures
            r == (ThumbDimensions { width, height }),
    {
        ThumbDimensions { width, height }
    }

    /// The dimensions as `WxH`.
    pub fn to_string(&self) -> (r: String)
        ensures
            r@ == dims_text(*self),
    {
        let mut s = u64_to_string(self.width as u64);
        push_str(&mut s, "x");
        proof {
            reveal_strlit("x");
        }
        let h = u64_to_string(self.height as u64);
        push_str(&mut s, h.as_str());
        s
    }
}

/// Default thumbnail dimensions: 64 by 64.
pub open spec fn default_dims() -> ThumbDimensions {
    ThumbDimensions { width: 64, height: 64 }
}

/// Poster dimensions: 300 by 300.
pub open spec fn poster_dims() -> ThumbDimensions {
    ThumbDimensions { width: 300, height: 300 }
}

impl Default for ThumbDimensions {
    fn default() -> (r: Self)
        ensures
            r == default_dims(),
    {
        ThumbDimensions { width: 64, height: 64 }
    }
}

/// The thumbnail sizes that can be asked for.
#[derive(Clone, Copy, Debug, PartialEq, Eq, Structural)]
pub enum ThumbSize {
    Thumb,
    Poster,
    Specific(ThumbDimensions),
}

impl Default for ThumbSize {
    fn default() -> (r: Self)
        ensures
            r == ThumbSize::Thumb,
    {
        ThumbSize::Thumb
    }
}

/// The key a thumbnail of size `s` is recorded under: `thumbnail`,
/// `poster`, or `thumbnail-WxH`.
pub open spec fn size_key(s: ThumbSize) -> Seq<char> {
    match s {
        ThumbSize::Thumb => "thumbnail"@,
        ThumbSize::Poster => "poster"@,
        ThumbSize::Specific(d) => "thumbnail-"@ + dims_text(d),
    }
}

/// The dimensions a thumbnail size stands for.
pub open spec fn size_dims(s: ThumbSize) -> ThumbDimensions {
    match s {
        ThumbSize::Thumb => default_dims(),
        ThumbSize::Poster => poster_dims(),
        ThumbSize::Specific(d) => d,
    }
}

impl ThumbSize {
    /// The key the thumbnail is recorded under.
    pub fn to_string(&self) -> (r: String)
        ensures
            r@ == size_key(*self),
    {
        match self {
            ThumbSize::Thumb => string_from("thumbnail"),
            ThumbSize::Poster => string_from("poster"),
            ThumbSize::Specific(d) => {
                let mut s = string_from("thumbnail-");
                let t = d.to_string();
                push_str(&mut s, t.as_str());
                s
            },
        }
    }
}

impl From<ThumbSize> for ThumbDimensions {
    fn from(size: ThumbSize) -> (r: Self) {
        match size {
            ThumbSize::Thumb => ThumbDimensions { width: 64, height: 64 },
            ThumbSize::Poster => ThumbDimensions { width: 300, height: 300 },
            ThumbSize::Specific(dimensions) => dimensions,
        }
    }
}

impl vstd::std_specs::convert::FromSpecImpl<ThumbSize> for ThumbDimensions {
    open spec fn obeys_from_spec() -> bool {
        true
    }

    open spec fn from_spec(v: ThumbSize) -> Self {
        size_dims(v)
    }
}

/// What generating a thumbnail produced: its size, the hash of its file and
/// where the file lies.
#[derive(Clone, Debug)]
pub struct ThumbGenerateResult {
    pub width: u32,
    pub height: u32,
    pub hash: String,
    pub path: String,
}

/// What is recorded about a thumbnail besides its path.
#[derive(Clone, Debug)]
pub struct FileThumbMeta {
    pub width: u32,
    pub height: u32,
    pub hash: String,
}

impl From<ThumbGenerateResult> for FileThumbMeta {
    fn from(result: ThumbGenerateResult) -> (r: Self) {
        FileThumbMeta { width: result.width, height: result.height, hash: result.hash }
    }
}

impl vstd::std_specs::convert::FromSpecImpl<ThumbGenerateResult> for FileThumbMeta {
    open spec fn obeys_from_spec() -> bool {
        true
    }

    open spec fn from_spec(v: ThumbGenerateResult) -> Self {
        FileThumbMeta { width: v.width, height: v.height, hash: v.hash }
    }
}

/// A thumbnail on disk: where it lies, when it was recorded, what it is.
#[derive(Clone, Debug)]
pub struct FileThumb {
    pub path: String,
    pub created_at: Timestamp,
    pub meta: FileThumbMeta,
}

/// The file name of the thumbnail of `id` at dimensions `d`: `id.WxH.jpeg`.
pub open spec fn thumb_file_name_spec(id: Seq<char>, d: ThumbDimensions) -> Seq<char> {
    id + seq!['.'] + dims_text(d) + ".jpeg"@
}

/// The file name a thumbnail of `id` at dimensions `d` is written to.
pub fn thumb_file_name(id: &str, dimensions: ThumbDimensions) -> (r: String)
    ensures
        r@ == thumb_file_name_spec(id@, dimensions),
{
    let mut s = string_from(id);
    push_str(&mut s, ".");
    proof {
        reveal_strlit(".");
    }
    let d = dimensions.to_string();
    push_str(&mut s, d.as_str());
    push_str(&mut s, ".jpeg");
    s
}

/// How a file of a given type is made into a thumbnail.
#[derive(Clone, Copy, Debug, PartialEq, Eq, Structural)]
pub enum ThumbSource {
    /// Decode the file as an image.
    Image,
    /// Extract the first frame of the video, then treat it as an image.
    Video,
}

/// The way to make a thumbnail of a file of type `t`: images and videos
/// by their media type prefix, nothing for other types.
pub open spec fn thumb_source_spec(t: Seq<char>) -> Option<ThumbSource> {
    if t.len() >= 6 && t.take(6) == "image/"@ {
        Some(ThumbSource::Image)
    } else if t.len() >= 6 && t.take(6) == "video/"@ {
        Some(ThumbSource::Video)
    } else {
        None
    }
}

/// The way to make a thumbnail of a file of type `file_type`, if it has one.
pub fn thumb_source(file_type: &str) -> (r: Option<ThumbSource>)
    ensures
        r == thumb_source_spec(file_type@),
{
    let v = chars_of(file_type);
    let image = chars_of("image/");
    let video = chars_of("video/");
    proof {
        reveal_strlit("image/");
        reveal_strlit("video/");
    }
    assert(v@.subrange(0, v@.len() as int) =~= v@);
    if starts_with_at(&v, 0, &image) {
        Some(ThumbSource::Image)
    } else if starts_with_at(&v, 0, &video) {
        Some(ThumbSource::Video)
    } else {
        None
    }
}

} // verus!
