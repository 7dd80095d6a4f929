//! The pixel dimensions of a media file, read off the streams that ffprobe
//! reports.
use vstd::prelude::*;
use crate::ffprobe::Stream;

verus! {

/// The key under which the dimensions are stored among a file's data.
pub const FILE_DATA_MEDIA_DIMENSIONS_KEY: &'static str = "media-dimensions";

/// Width and height of a picture or video, in pixels.
#[derive(Clone, Copy, Debug, PartialEq, Eq, Structural)]
pub struct MediaDimensions {
    pub width: u32,
    pub height: u32,
}

impl From<(u32, u32)> for MediaDimensions {
    fn from(v: (u32, u32)) -> (r: Self) {
        MediaDimensions { width: v.0, height: v.1 }
    }
}

impl vstd::std_specs::convert::FromSpecImpl<(u32, u32)> for MediaDimensions {
    open spec fn obeys_from_spec() -> bool {
        true
    }

    open spec fn from_spec(v: (u32, u32)) -> Self {
        MediaDimensions { width: v.0, height: v.1 }
    }
}

/// Dimensions as ffprobe reports them (signed 64-bit) keep their low 32
/// bits, as an `as` cast does.
impl From<(i64, i64)> for MediaDimensions {
    fn from(v: (i64, i64)) -> (r: Self) {
        MediaDimensions { width: v.0 as u32, height: v.1 as u32 }
    }
}

impl vstd::std_specs::convert::FromSpecImpl<(i64, i64)> for MediaDimensions {
    open spec fn obeys_from_spec() -> bool {
        true
    }

    open spec fn from_spec(v: (i64, i64)) -> Self {
        MediaDimensions { width: v.0 as u32, height: v.1 as u32 }
    }
}

/// The width and height of the first stream of `s` that has both.
pub open spec fn first_sized(s: Seq<Stream>) -> Option<(i64, i64)>
    decreases s.len(),
{
    if s.len() == 0 {
        None
    } else if s[0].width is Some && s[0].height is Some {
        Some((s[0].width->0, s[0].height->0))
    } else {
        first_sized(s.drop_first())
    }
}

/// The dimensions that a probe's stream list gives: those of the first
/// stream with a width and a height, truncated to 32 bits; none when the
/// probe listed no streams or no stream has both.
pub open spec fn dims_of_streams(streams: Option<Vec<Stream>>) -> Option<MediaDimensions> {
    match streams {
        None => None,
        Some(s) => match first_sized(s@) {
            None => None,
            Some(wh) => Some(MediaDimensions { width: wh.0 as u32, height: wh.1 as u32 }),
        },
    }
}

proof fn lemma_first_sized_skip(s: Seq<Stream>, i: int)
    requires
        0 <= i < s.len(),
        forall|j: int| 0 <= j < i ==> !(s[j].width is Some && s[j].height is Some),
    ensures
        first_sized(s) == first_sized(s.subrange(i, s.len() as int)),
    decreases i,
{
    if i > 0 {
        lemma_first_sized_skip(s.drop_first(), i - 1);
        assert(s.drop_first().subrange(i - 1, s.drop_first().len() as int) =~= s.subrange(i, s.len() as int));
    } else {
        assert(s.subrange(0, s.len() as int) =~= s);
    }
}

/// The dimensions of the first stream with a width and a height.
pub fn dimensions_from_streams(streams: &Option<Vec<Stream>>) -> (r: Option<MediaDimensions>)
    ensures
        r == dims_of_streams(*streams),
{
    match streams {
        None => None,
        Some(v) => {
            let mut i: usize = 0;
            while i < v.len()
                invariant
                    0 <= i <= v@.len(),
                    *streams == Some(*v),
                    forall|j: int| 0 <= j < i ==> !(v@[j].width is Some && v@[j].height is Some),
                decreases v@.len() - i,
            {
                match (v[i].width, v[i].height) {
                    (Some(w), Some(h)) => {
                        proof {
                            lemma_first_sized_skip(v@, i as int);
                            assert(v@.subrange(i as int, v@.len() as int)[0] == v@[i as int]);
                        }
                        let d = <MediaDimensions as From<(i64, i64)>>::from((w, h));
                        assert(first_sized(v@) == Some((w, h)));
                        return Some(d);
                    },
                    _ => {},
                }
                i = i + 1;
            }
            proof {
                assert forall|k: int| 0 <= k <= v@.len() implies first_sized(v@.subrange(k, v@.len() as int)) is None by {
                    lemma_first_sized_tail_none(v@, k);
                }
                assert(v@.subrange(0, v@.len() as int) =~= v@);
            }
            None
        },
    }
}

proof fn lemma_first_sized_tail_none(s: Seq<Stream>, k: int)
    requires
        0 <= k <= s.len(),
        forall|j: int| 0 <= j < s.len() ==> !(s[j].width is Some && s[j].height is Some),
    ensures
        first_sized(s.subrange(k, s.len() as int)) is None,
    decreases s.len() - k,
{
    let t = s.subrange(k, s.len() as int);
    if k < s.len() {
        lemma_first_sized_tail_none(s, k + 1);
        assert(t.drop_first() =~= s.subrange(k + 1, s.len() as int));
    }
}

/// The dimensions of a probe are those of the lowest-numbered stream that
/// has both a width and a height, each truncated to 32 bits: in
/// particular, a first stream with both gives its own.
pub proof fn lemma_dims_are_the_first_sized_stream(v: Vec<Stream>, i: int)
    requires
        0 <= i < v@.len(),
        v@[i].width is Some && v@[i].height is Some,
        forall|j: int| 0 <= j < i ==> !(v@[j].width is Some && v@[j].height is Some),
    ensures
        dims_of_streams(Some(v)) == Some(
            MediaDimensions { width: v@[i].width->0 as u32, height: v@[i].height->0 as u32 },
        ),
{
    lemma_first_sized_skip(v@, i);
    assert(v@.subrange(i, v@.len() as int)[0] == v@[i]);
}

/// A probe without streams, or none of whose streams has both a width and
/// a height, gives no dimensions.
pub proof fn lemma_no_sized_stream_no_dims(streams: Option<Vec<Stream>>)
    requires
        streams matches Some(v) ==> forall|j: int|
            0 <= j < v@.len() ==> !(v@[j].width is Some && v@[j].height is Some),
    ensures
        dims_of_streams(streams) is None,
{
    if let Some(v) = streams {
        lemma_first_sized_tail_none(v@, 0);
        assert(v@.subrange(0, v@.len() as int) =~= v@);
    }
}

} // verus!
