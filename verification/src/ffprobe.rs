//! Probing media files with ffprobe: the probe's configuration, the command
//! line it is run with, and the stream records it reports.
use vstd::prelude::*;
use crate::text::string_from;

verus! {

broadcast use vstd::string::group_string_axioms;

/// What ffprobe is asked to report.
#[derive(Clone, Copy, Debug)]
pub struct Config {
    count_frames: bool,
    with_streams: bool,
}

impl Config {
    /// Whether the frames are counted (`-count_frames`).
    pub closed spec fn spec_count_frames(self) -> bool {
        self.count_frames
    }

    /// Whether the streams are listed (`-show_streams`).
    pub closed spec fn spec_with_streams(self) -> bool {
        self.with_streams
    }

    pub fn builder() -> (r: ConfigBuilder)
        ensures
            !r.spec_config().spec_count_frames(),
            r.spec_config().spec_with_streams(),
    {
        ConfigBuilder::new()
    }

    pub fn count_frames(&self) -> (r: bool)
        ensures
            r == self.spec_count_frames(),
    {
        self.count_frames
    }

    pub fn with_streams(&self) -> (r: bool)
        ensures
            r == self.spec_with_streams(),
    {
        self.with_streams
    }
}

impl Default for Config {
    /// The builder's starting configuration: streams listed, frames not counted.
    fn default() -> (r: Self)
        ensures
            !r.spec_count_frames(),
            r.spec_with_streams(),
    {
        Config::builder().build()
    }
}

/// Builds a probe configuration.
pub struct ConfigBuilder {
    config: Config,
}

impl ConfigBuilder {
    /// The configuration built so far.
    pub closed spec fn spec_config(self) -> Config {
        self.config
    }

    pub fn new() -> (r: Self)
        ensures
            !r.spec_config().spec_count_frames(),
            r.spec_config().spec_with_streams(),
    {
        ConfigBuilder { config: Config { count_frames: false, with_streams: true } }
    }

    /// Sets whether the frames are counted; this decodes the whole file.
    pub fn count_frames(self, count_frames: bool) -> (r: Self)
        ensures
            r.spec_config().spec_count_frames() == count_frames,
            r.spec_config().spec_with_streams() == self.spec_config().spec_with_streams(),
    {
        let mut s = self;
        s.config.count_frames = count_frames;
        s
    }

    /// Sets whether the streams are listed.
    pub fn with_streams(self, with_streams: bool) -> (r: Self)
        ensures
            r.spec_config().spec_with_streams() == with_streams,
            r.spec_config().spec_count_frames() == self.spec_config().spec_count_frames(),
    {
        let mut s = self;
        s.config.with_streams = with_streams;
        s
    }

    pub fn build(self) -> (r: Config)
        ensures
            r == self.spec_config(),
    {
        self.config
    }
}

impl Default for ConfigBuilder {
    fn default() -> (r: Self)
        ensures
            !r.spec_config().spec_count_frames(),
            r.spec_config().spec_with_streams(),
    {
        Self::new()
    }
}

/// The arguments ffprobe is run with for `path`: quiet, compact JSON, the
/// container format, the streams if asked, the frame count if asked, and
/// last the file.
pub open spec fn ffprobe_args_spec(config: Config, path: Seq<char>) -> Seq<Seq<char>> {
    let base = seq!["-v"@, "quiet"@, "-print_format"@, "json=c=1"@, "-show_format"@];
    let with_streams = if config.spec_with_streams() {
        base.push("-show_streams"@)
    } else {
        base
    };
    let with_frames = if config.spec_count_frames() {
        with_streams.push("-count_frames"@)
    } else {
        with_streams
    };
    with_frames.push(path)
}

/// The texts of a list of strings.
pub open spec fn strings_view(v: Seq<String>) -> Seq<Seq<char>> {
    v.map_values(|s: String| s@)
}

fn push_arg(args: &mut Vec<String>, a: String)
    ensures
        strings_view(final(args)@) == strings_view(old(args)@).push(a@),
{
    args.push(a);
    assert(strings_view(args@) =~= strings_view(old(args)@).push(a@));
}

/// The command line arguments ffprobe is run with to probe `path`.
pub fn ffprobe_args(config: &Config, path: &str) -> (r: Vec<String>)
    ensures
        strings_view(r@) == ffprobe_args_spec(*config, path@),
{
    let mut args: Vec<String> = Vec::new();
    assert(strings_view(args@) =~= Seq::<Seq<char>>::empty());
    push_arg(&mut args, string_from("-v"));
    push_arg(&mut args, string_from("quiet"));
    push_arg(&mut args, string_from("-print_format"));
    push_arg(&mut args, string_from("json=c=1"));
    push_arg(&mut args, string_from("-show_format"));
    assert(strings_view(args@) =~= seq!["-v"@, "quiet"@, "-print_format"@, "json=c=1"@, "-show_format"@]);
    if config.with_streams {
        push_arg(&mut args, string_from("-show_streams"));
    }
    if config.count_frames {
        push_arg(&mut args, string_from("-count_frames"));
    }
    push_arg(&mut args, string_from(path));
    args
}

/// One stream of a probed file, as ffprobe reports it.
#[derive(Clone, Debug)]
pub struct Stream {
    pub index: i64,
    pub codec_name: Option<String>,
    pub sample_aspect_ratio: Option<String>,
    pub display_aspect_ratio: Option<String>,
    pub color_range: Option<String>,
    pub color_space: Option<String>,
    pub bits_per_raw_sample: Option<String>,
    pub channel_layout: Option<String>,
    pub max_bit_rate: Option<String>,
    pub nb_frames: Option<String>,
    /// Number of frames seen by the decoder; only reported when the frames
    /// were counted.
    pub nb_read_frames: Option<String>,
    pub codec_long_name: Option<String>,
    pub codec_type: Option<String>,
    pub codec_time_base: Option<String>,
    pub codec_tag_string: Option<String>,
    pub codec_tag: Option<String>,
    pub sample_fmt: Option<String>,
    pub sample_rate: Option<String>,
    pub channels: Option<i64>,
    pub bits_per_sample: Option<i64>,
    pub r_frame_rate: Option<String>,
    pub avg_frame_rate: Option<String>,
    pub time_base: Option<String>,
    pub start_pts: Option<i64>,
    pub start_time: Option<String>,
    pub duration_ts: Option<i64>,
    pub duration: Option<String>,
    pub bit_rate: Option<String>,
    pub disposition: Option<Disposition>,
    pub tags: Option<StreamTags>,
    pub profile: Option<String>,
    pub width: Option<i64>,
    pub height: Option<i64>,
    pub coded_width: Option<i64>,
    pub coded_height: Option<i64>,
    pub closed_captions: Option<i64>,
    pub has_b_frames: Option<i64>,
    pub pix_fmt: Option<String>,
    pub level: Option<i64>,
    pub chroma_location: Option<String>,
    pub refs: Option<i64>,
    pub is_avc: Option<String>,
    pub nal_length: Option<String>,
    pub nal_length_size: Option<String>,
    pub field_order: Option<String>,
    pub id: Option<String>,
    pub side_data_list: Vec<SideData>,
}

/// Side data attached to a stream.
#[derive(Clone, Debug)]
pub struct SideData {
    pub side_data_type: String,
}

/// How a stream is meant to be used.
#[derive(Clone, Copy, Debug, PartialEq, Eq, Structural)]
pub struct Disposition {
    pub default: i64,
    pub dub: i64,
    pub original: i64,
    pub comment: i64,
    pub lyrics: i64,
    pub karaoke: i64,
    pub forced: i64,
    pub hearing_impaired: Option<i64>,
    pub visual_impaired: Option<i64>,
    pub clean_effects: Option<i64>,
    pub attached_pic: Option<i64>,
    pub timed_thumbnails: Option<i64>,
}

/// Tags of a stream.
#[derive(Clone, Debug)]
pub struct StreamTags {
    pub language: Option<String>,
    pub creation_time: Option<String>,
    pub handler_name: Option<String>,
    pub encoder: Option<String>,
    pub timecode: Option<String>,
    pub reel_name: Option<String>,
}

} // verus!
