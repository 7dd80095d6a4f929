use meme_watcher::headers::{get_one, remove_named, same_name, Header};
use meme_watcher::range::{etag_matches, FileTimes, RangePlan, RangeResponder};
use meme_watcher::request::{logged_headers, AddRequestId};
use meme_watcher::routes::{resolve_get, static_file_headers, ThumbSize as RouteThumbSize};
use meme_watcher::thumb::{thumb_file_name, thumb_source, ThumbDimensions, ThumbSize, ThumbSource};
use meme_watcher::time::{parse_db_date, Timestamp, CHRONO_MAX_SECS, CHRONO_MIN_SECS};

fn names(hs: &[Header]) -> Vec<(String, String)> {
    hs.iter().map(|h| (h.name.clone(), h.value.clone())).collect()
}

fn pair(a: &str, b: &str) -> (String, String) {
    (a.to_string(), b.to_string())
}

fn responder() -> RangeResponder<()> {
    RangeResponder::new(()).with_path("/srv/a.png").with_metadata(FileTimes {
        modified: Some(Timestamp { secs: 1_000_000_000, nanos: 0 }),
        created: None,
    })
}

#[test]
fn responder_headers_describe_the_file() {
    let mut r = responder();
    r.add_header(Header::new("etag", "\"abc\"".to_string()));
    let hs = r.additional_headers(100);
    assert_eq!(
        names(&hs),
        vec![
            pair("etag", "\"abc\""),
            pair("Content-Type", "image/png"),
            pair("X-File-Path", "/srv/a.png"),
            pair("last-modified", "Sun, 9 Sep 2001 01:46:40 +0000"),
        ]
    );
    let bare = RangeResponder::new(7u8);
    assert!(bare.additional_headers(1).is_empty());
    assert_eq!(*bare.original(), 7);
    assert_eq!(bare.into_original(), 7);
}

#[test]
fn range_header_gives_the_first_satisfiable_range() {
    let r = responder();
    assert_eq!(r.parse_range_header("bytes=0-15", 100).ok(), Some((0, 15)));
    assert_eq!(r.parse_range_header("bytes=90-", 100).ok(), Some((90, 99)));
    assert_eq!(r.parse_range_header("bytes=-10", 100).ok(), Some((90, 99)));
    assert_eq!(r.parse_range_header("bytes=10-200", 100).ok(), Some((10, 99)));
    let refused = r.parse_range_header("bytes=200-300", 100).unwrap_err();
    assert_eq!(refused.status, 416);
    assert_eq!(get_one(&refused.headers, "content-range"), Some("bytes */100".to_string()));
    let garbage = r.parse_range_header("pages=1-2", 100).unwrap_err();
    assert_eq!(garbage.status, 416);
}

#[test]
fn plan_for_partial_full_and_refused_requests() {
    let r = responder();
    match r.plan_response(Some("bytes=10-19"), 50) {
        RangePlan::Partial { start, length, headers, on_seek_failure } => {
            assert_eq!((start, length), (10, 10));
            assert_eq!(get_one(&headers, "content-length"), Some("10".to_string()));
            assert_eq!(get_one(&headers, "content-range"), Some("bytes 10-19/50".to_string()));
            assert_eq!(on_seek_failure.status, 416);
        },
        other => panic!("unexpected plan {:?}", other),
    }
    assert!(matches!(r.plan_response(None, 50), RangePlan::Full { .. }));
    match r.plan_response(Some("bytes=60-70"), 50) {
        RangePlan::Reply(reply) => assert_eq!(reply.status, 416),
        other => panic!("unexpected plan {:?}", other),
    }
}

#[test]
fn conditional_requests_by_etag() {
    let mut r = RangeResponder::new(());
    r.add_header(Header::new("etag", "\"h1\"".to_string()));
    assert_eq!(r.respond_to_cache_headers(None, Some("\"h0\", \"h1\"")), Err(304));
    assert_eq!(r.respond_to_cache_headers(None, Some("*")), Err(304));
    assert_eq!(r.respond_to_cache_headers(None, Some("\"h2\"")), Ok(()));
    assert_eq!(r.respond_to_cache_headers(None, None), Ok(()));
    assert!(etag_matches(" a ,b", "a"));
    assert!(!etag_matches("ab", "a"));
}

#[test]
fn conditional_requests_by_date() {
    let r = responder();
    // the file is newer than the date the client holds
    assert_eq!(r.respond_to_cache_headers(Some("Sat, 1 Jan 2000 00:00:00 +0000"), None), Err(304));
    assert_eq!(r.respond_to_cache_headers(Some("Sun, 9 Sep 2001 01:46:40 +0000"), None), Ok(()));
    assert_eq!(r.respond_to_cache_headers(Some("yesterday"), None), Ok(()));
}

#[test]
fn reject_range_names_the_size() {
    let reply = RangeResponder::<()>::reject_range_ext(42, vec![Header::new("a", "b".to_string())]);
    assert_eq!(reply.status, 416);
    assert_eq!(names(&reply.headers), vec![pair("a", "b"), pair("content-range", "bytes */42")]);
    assert!(reply.body.is_none());
}

#[test]
fn header_names_ignore_ascii_case() {
    assert!(same_name("Content-Type", "content-type"));
    assert!(!same_name("etag", "etags"));
    let hs = vec![Header::new("A", "1".to_string()), Header::new("b", "2".to_string()), Header::new("a", "3".to_string())];
    assert_eq!(get_one(&hs, "a"), Some("1".to_string()));
    assert_eq!(get_one(&hs, "c"), None);
    assert_eq!(names(&remove_named(&hs, "a")), vec![pair("b", "2")]);
}

#[test]
fn request_ids_are_ulids() {
    let h = AddRequestId.request_id_header();
    assert_eq!(h.name, "x-request-id");
    assert_eq!(h.value.len(), 26);
    assert!(h.value.chars().all(|c| c.is_ascii_digit() || c.is_ascii_uppercase()));
}

#[test]
fn logged_headers_skip_ids_and_fetch_metadata() {
    let hs = vec![
        Header::new("x-request-id", "1".to_string()),
        Header::new("sec-fetch-mode", "cors".to_string()),
        Header::new("accept", "a".to_string()),
        Header::new("host", "h".to_string()),
        Header::new("accept", "b".to_string()),
    ];
    let mut out = names(&logged_headers(&hs));
    out.sort();
    assert_eq!(out, vec![pair("accept", "b"), pair("host", "h")]);
}

#[test]
fn thumbnail_sizes_from_urls() {
    assert_eq!(RouteThumbSize::from_param("thumb"), Ok(RouteThumbSize::Thumb));
    assert_eq!(RouteThumbSize::from_param("thumbnail"), Ok(RouteThumbSize::Thumb));
    assert_eq!(RouteThumbSize::from_param("poster"), Ok(RouteThumbSize::Poster));
    assert_eq!(RouteThumbSize::from_param("120x80"), Ok(RouteThumbSize::Specific(ThumbDimensions::new(120, 80))));
    assert_eq!(RouteThumbSize::from_param("120x"), Err(400));
    assert_eq!(RouteThumbSize::from_param("+1x2"), Ok(RouteThumbSize::Specific(ThumbDimensions::new(1, 2))));
    assert_eq!(RouteThumbSize::from_param("-1x2"), Err(400));
    assert_eq!(RouteThumbSize::from_param("big"), Err(400));
    let d = ThumbDimensions::new(31, 7);
    assert_eq!(RouteThumbSize::from_param(&d.to_string()), Ok(RouteThumbSize::Specific(d)));
    assert_eq!(ThumbSize::from(RouteThumbSize::Poster), ThumbSize::Poster);
}

#[test]
fn thumbnail_names_and_keys() {
    assert_eq!(ThumbDimensions::default(), ThumbDimensions::new(64, 64));
    assert_eq!(ThumbDimensions::new(3, 4).to_string(), "3x4");
    assert_eq!(ThumbSize::default().to_string(), "thumbnail");
    assert_eq!(ThumbSize::Poster.to_string(), "poster");
    assert_eq!(ThumbSize::Specific(ThumbDimensions::new(9, 8)).to_string(), "thumbnail-9x8");
    assert_eq!(ThumbDimensions::from(ThumbSize::Poster), ThumbDimensions::new(300, 300));
    assert_eq!(ThumbDimensions::from(ThumbSize::Thumb), ThumbDimensions::new(64, 64));
    assert_eq!(thumb_file_name("12", ThumbDimensions::new(5, 6)), "12.5x6.jpeg");
    assert_eq!(thumb_source("image/webp"), Some(ThumbSource::Image));
    assert_eq!(thumb_source("video/mp4"), Some(ThumbSource::Video));
    assert_eq!(thumb_source("audio/mpeg"), None);
}

#[test]
fn routes_mount_under_a_base() {
    let out = resolve_get("/api/", vec![("/index".to_string(), 1), ("file".to_string(), 2)]);
    assert_eq!(out, vec![("/api/index".to_string(), 1), ("/api/file".to_string(), 2)]);
    let hs = static_file_headers("abc");
    assert_eq!(
        names(&hs),
        vec![
            pair("etag", "\"abc\""),
            pair("cache-control", "public, max-age=31536000, immutable"),
            pair("pragma", "public"),
        ]
    );
}

#[test]
fn db_dates_in_both_formats() {
    assert_eq!(parse_db_date("2001-09-09T01:46:40Z").ok(), Some(Timestamp { secs: 1_000_000_000, nanos: 0 }));
    assert_eq!(parse_db_date("2001-09-09 01:46:40").ok(), Some(Timestamp { secs: 1_000_000_000, nanos: 0 }));
    assert!(parse_db_date("09/09/2001").is_err());
}

#[test]
fn modification_must_be_over_ten_milliseconds_later() {
    let at = |nanos| {
        RangeResponder::new(()).with_metadata(FileTimes {
            modified: Some(Timestamp { secs: 1_000_000_000, nanos }),
            created: None,
        })
    };
    let date = "Sun, 9 Sep 2001 01:46:40 +0000";
    assert_eq!(at(11_000_000).respond_to_cache_headers(Some(date), None), Err(304));
    assert_eq!(at(10_000_000).respond_to_cache_headers(Some(date), None), Ok(()));
    assert_eq!(at(5_000_000).respond_to_cache_headers(Some(date), None), Ok(()));
}

#[test]
fn chrono_range_bounds_are_exact() {
    assert!(chrono::DateTime::from_timestamp(CHRONO_MIN_SECS, 0).is_some());
    assert!(chrono::DateTime::from_timestamp(CHRONO_MIN_SECS - 1, 0).is_none());
    assert!(chrono::DateTime::from_timestamp(CHRONO_MAX_SECS, 0).is_some());
    assert!(chrono::DateTime::from_timestamp(CHRONO_MAX_SECS + 1, 0).is_none());
}
