use meme_watcher::config::AppConfig;
use meme_watcher::ffprobe::{ffprobe_args, Config as ProbeConfig, ConfigBuilder, Stream};
use meme_watcher::file_info::{
    describe_new_file, file_hash, infer_file_type, pick_file_type, to_hex, FileMetadata,
    FileMetadataRecord, UnknownFileType,
};
use meme_watcher::imaging::{
    blurhash_from_pixels, blurhash_of_image, first_frame_args, image_thumbnail, thumb_lookup,
    thumbnail_job, BlurhashError, ThumbError, ThumbLookup,
};
use meme_watcher::media::{dimensions_from_streams, MediaDimensions};
use meme_watcher::thumb::{ThumbDimensions, ThumbSize, ThumbSource};
use meme_watcher::time::Timestamp;

fn stream(index: i64, width: Option<i64>, height: Option<i64>) -> Stream {
    Stream {
        index,
        codec_name: None,
        sample_aspect_ratio: None,
        display_aspect_ratio: None,
        color_range: None,
        color_space: None,
        bits_per_raw_sample: None,
        channel_layout: None,
        max_bit_rate: None,
        nb_frames: None,
        nb_read_frames: None,
        codec_long_name: None,
        codec_type: None,
        codec_time_base: None,
        codec_tag_string: None,
        codec_tag: None,
        sample_fmt: None,
        sample_rate: None,
        channels: None,
        bits_per_sample: None,
        r_frame_rate: None,
        avg_frame_rate: None,
        time_base: None,
        start_pts: None,
        start_time: None,
        duration_ts: None,
        duration: None,
        bit_rate: None,
        disposition: None,
        tags: None,
        profile: None,
        width,
        height,
        coded_width: None,
        coded_height: None,
        closed_captions: None,
        has_b_frames: None,
        pix_fmt: None,
        level: None,
        chroma_location: None,
        refs: None,
        is_avc: None,
        nal_length: None,
        nal_length_size: None,
        field_order: None,
        id: None,
        side_data_list: Vec::new(),
    }
}

fn png(width: u32, height: u32) -> Vec<u8> {
    let img = image::RgbImage::from_fn(width, height, |x, y| image::Rgb([(x * 30) as u8, (y * 40) as u8, 90]));
    let mut out = std::io::Cursor::new(Vec::new());
    image::DynamicImage::ImageRgb8(img).write_to(&mut out, image::ImageFormat::Png).unwrap();
    out.into_inner()
}

#[test]
fn media_dimensions_from_tuples() {
    assert_eq!(MediaDimensions::from((640u32, 480u32)), MediaDimensions { width: 640, height: 480 });
    assert_eq!(MediaDimensions::from((1920i64, 1080i64)), MediaDimensions { width: 1920, height: 1080 });
    // the low 32 bits are kept
    assert_eq!(MediaDimensions::from((-1i64, 4294967297i64)), MediaDimensions { width: u32::MAX, height: 1 });
}

#[test]
fn dimensions_come_from_the_first_stream_with_both() {
    let streams = Some(vec![stream(0, None, None), stream(1, Some(10), None), stream(2, Some(320), Some(240)), stream(3, Some(1), Some(1))]);
    assert_eq!(dimensions_from_streams(&streams), Some(MediaDimensions { width: 320, height: 240 }));
    assert_eq!(dimensions_from_streams(&Some(vec![stream(0, None, Some(3))])), None);
    assert_eq!(dimensions_from_streams(&Some(Vec::new())), None);
    assert_eq!(dimensions_from_streams(&None), None);
}

#[test]
fn ffprobe_arguments_follow_the_configuration() {
    let c = ConfigBuilder::new().build();
    assert!(c.with_streams());
    assert!(!c.count_frames());
    assert_eq!(
        ffprobe_args(&c, "/a.mp4"),
        vec!["-v", "quiet", "-print_format", "json=c=1", "-show_format", "-show_streams", "/a.mp4"]
    );
    let d = ProbeConfig::builder().with_streams(false).count_frames(true).build();
    assert_eq!(
        ffprobe_args(&d, "/b.mkv"),
        vec!["-v", "quiet", "-print_format", "json=c=1", "-show_format", "-count_frames", "/b.mkv"]
    );
}

#[test]
fn hex_and_sha512() {
    assert_eq!(to_hex(&vec![0x00, 0x0f, 0xa0, 0xff]), "000fa0ff");
    assert_eq!(
        file_hash(b"abc"),
        "ddaf35a193617abacc417349ae20413112e6fa4e89a97ea20a9eeee64b55d39a2192992a274fc1a836ba3c23a3feebbd454d4423643ce80e2a9ac94fa54ca49f"
    );
    assert_eq!(file_hash(b"").len(), 128);
}

#[test]
fn file_types_are_sniffed_then_detected() {
    assert_eq!(infer_file_type(&png(2, 2)), Ok("image/png".to_string()));
    assert_eq!(infer_file_type(b"GIF89a\x01\x00\x01\x00"), Ok("image/gif".to_string()));
    assert_eq!(infer_file_type(b"just some words"), Ok("application/octet-stream".to_string()));
    assert_eq!(pick_file_type(None, None), Err(UnknownFileType));
    assert_eq!(pick_file_type(None, Some("text/plain".to_string())), Ok("text/plain".to_string()));
    assert_eq!(pick_file_type(Some("a/b".to_string()), Some("c/d".to_string())), Ok("a/b".to_string()));
}

#[test]
fn new_file_rows_describe_the_file() {
    let app = AppConfig { directory: "/srv".to_string(), metadata_directory: "/srv/.m".to_string() };
    let t = Timestamp { secs: 0, nanos: 0 };
    let row = describe_new_file(&app, "/srv/x/y.png", &png(1, 1), 70, Some(t), None).unwrap();
    assert_eq!(row.path, "x/y.png");
    assert_eq!(row.hash, file_hash(&png(1, 1)));
    assert_eq!(row.ulid.len(), 26);
    assert_eq!(row.file_type, Some("image/png".to_string()));
    assert_eq!(row.file_size, Some(70));
    assert_eq!(row.file_ctime, Some("1970-01-01T00:00:00+00:00".to_string()));
    assert_eq!(row.file_mtime, None);
    let big = describe_new_file(&app, "/srv/z", b"", u64::MAX, None, None).unwrap();
    assert_eq!(big.file_size, None);
    assert!(describe_new_file(&app, "/tmp/z", b"", 0, None, None).is_err());
}

#[test]
fn metadata_rows_read_their_dates() {
    let m = FileMetadata::from(FileMetadataRecord {
        file_id: 4,
        file_type: Some("video/mp4".to_string()),
        file_size: Some(10),
        file_ctime: Some("2023-11-21 17:18:13.5".to_string()),
        file_mtime: Some("not a date".to_string()),
    });
    assert_eq!(m.file_id, 4);
    assert_eq!(m.size, Some(10));
    assert_eq!(m.created, Some(Timestamp { secs: 1700587093, nanos: 500_000_000 }));
    assert_eq!(m.modified, None);
}

#[test]
fn blurhash_of_pixels_and_pictures() {
    let px = vec![255u8; 4 * 4 * 4];
    let h = blurhash_from_pixels(4, 4, &px).unwrap();
    assert_eq!(h.len(), 4 + 2 * 9);
    assert_eq!(blurhash_from_pixels(4, 4, &px[..10]), Err(BlurhashError::TooLarge));
    assert_eq!(blurhash_from_pixels(70000, 70000, &px), Err(BlurhashError::TooLarge));
    // a row longer than a u32 counts, even with no rows
    assert_eq!(blurhash_from_pixels(1 << 30, 0, &[]), Err(BlurhashError::TooLarge));
    assert!(blurhash_from_pixels(0, 5, &[]).is_ok());
    let data = png(8, 6);
    assert!(blurhash_of_image(&data, "/srv/a.png").is_ok());
    assert_eq!(blurhash_of_image(&data, "/srv/a"), Err(BlurhashError::Decode));
    assert_eq!(blurhash_of_image(&data, "/srv/a.gif"), Err(BlurhashError::Decode));
}

#[test]
fn thumbnails_fit_the_box_and_are_recorded() {
    let app = AppConfig { directory: "/srv".to_string(), metadata_directory: "/srv/.m".to_string() };
    let t = image_thumbnail(&app, &png(40, 20), "7", ThumbDimensions::new(10, 10)).unwrap();
    assert_eq!((t.result.width, t.result.height), (10, 5));
    let small = image_thumbnail(&app, &png(3, 6), "8", ThumbDimensions::new(300, 300)).unwrap();
    assert!(small.result.width <= 300 && small.result.height <= 300);
    assert_eq!(t.absolute_path, "/srv/.m/thumbs/7.10x10.jpeg");
    assert_eq!(t.result.path, "thumbs/7.10x10.jpeg");
    assert_eq!(t.result.hash, file_hash(&t.jpeg));
    assert_eq!(&t.jpeg[..2], &[0xFF, 0xD8]);
    assert!(matches!(image_thumbnail(&app, b"nope", "7", ThumbDimensions::new(10, 10)), Err(ThumbError::Render)));
}

#[test]
fn thumbnail_jobs_by_file_type() {
    let j = thumbnail_job("image/png", ThumbSize::Poster).unwrap();
    assert_eq!(j.source, ThumbSource::Image);
    assert_eq!(j.key, "poster");
    assert_eq!(j.dimensions, ThumbDimensions::new(300, 300));
    let v = thumbnail_job("video/mp4", ThumbSize::Specific(ThumbDimensions::new(3, 4))).unwrap();
    assert_eq!(v.source, ThumbSource::Video);
    assert_eq!(v.key, "thumbnail-3x4");
    assert!(matches!(thumbnail_job("text/plain", ThumbSize::Thumb), Err(ThumbError::UnsupportedFileType)));
}

#[test]
fn thumb_lookup_decisions() {
    assert_eq!(thumb_lookup(true, true, false), ThumbLookup::Reuse);
    assert_eq!(thumb_lookup(true, false, true), ThumbLookup::Generate { discard_stored: true });
    assert_eq!(thumb_lookup(false, false, true), ThumbLookup::Generate { discard_stored: false });
    assert_eq!(thumb_lookup(false, true, false), ThumbLookup::MissingMetadata { discard_stored: false });
}

#[test]
fn ffmpeg_first_frame_arguments() {
    assert_eq!(
        first_frame_args("/v.mp4", "/tmp/f.jpg"),
        vec!["-hide_banner", "-y", "-i", "/v.mp4", "-vframes", "1", "/tmp/f.jpg"]
    );
}

#[test]
fn stored_dates_read_back_as_written() {
    let app = AppConfig { directory: "/srv".to_string(), metadata_directory: "/srv/.m".to_string() };
    let instants = [
        Timestamp { secs: 0, nanos: 0 },
        Timestamp { secs: 1_700_587_093, nanos: 123_456_789 },
        Timestamp { secs: 253_402_300_799, nanos: 999_999_999 },
        Timestamp { secs: -62_167_219_200, nanos: 1_000 },
        // a leap second, and years outside 0 to 9999 up to the ends of chrono's range
        Timestamp { secs: 1_483_228_799, nanos: 1_500_000_000 },
        Timestamp { secs: 253_402_300_800, nanos: 0 },
        Timestamp { secs: -62_167_219_201, nanos: 0 },
        Timestamp { secs: 8_210_266_876_799, nanos: 1_999_999_999 },
        Timestamp { secs: -8_334_601_228_800, nanos: 0 },
    ];
    for t in instants {
        let row = describe_new_file(&app, "/srv/a", b"x", 1, Some(t), Some(t)).unwrap();
        let m = FileMetadata::from(FileMetadataRecord {
            file_id: 1,
            file_type: None,
            file_size: None,
            file_ctime: row.file_ctime,
            file_mtime: row.file_mtime,
        });
        assert_eq!(m.created, Some(t));
        assert_eq!(m.modified, Some(t));
    }
}
