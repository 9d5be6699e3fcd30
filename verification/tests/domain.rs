use hpyd::clock::Timestamp;
use hpyd::download::{Download, DownloadStatus, FULL_PROGRESS};
use hpyd::errors::AppError;
use hpyd::get_video_info::{GetVideoInfo, YtDlpFormat, YtDlpInfo};
use hpyd::http::VideoInfoResponse;
use hpyd::ids::id_to_text;
use hpyd::pagination::{PaginationMeta, PaginationQuery};
use hpyd::responses::{ErrorResponse, ListResponse, MessageOnlyResponse, SingleResponse};
use hpyd::video_info::{VideoFormat, VideoInfo, VideoQuality};

fn q(page: Option<u32>, per_page: Option<u32>) -> PaginationQuery {
    PaginationQuery { page, per_page }
}

#[test]
fn pagination_defaults_and_clamping() {
    assert_eq!(q(None, None).page(), 1);
    assert_eq!(q(None, None).per_page(), 20);
    assert_eq!(q(Some(0), Some(0)).page(), 1);
    assert_eq!(q(Some(0), Some(0)).per_page(), 1);
    assert_eq!(q(Some(7), Some(500)).per_page(), 100);
    assert_eq!(q(Some(3), Some(25)).offset(), 50);
    assert_eq!(q(None, None).offset(), 0);
    let d = PaginationQuery::default();
    assert_eq!(d.page, Some(1));
    assert_eq!(d.per_page, Some(20));
}

#[test]
fn pagination_meta_counts_pages() {
    let m = PaginationMeta::new(2, 20, 41);
    assert_eq!((m.page, m.per_page, m.total_items, m.total_pages), (2, 20, 41, 3));
    assert_eq!(PaginationMeta::new(1, 20, 40).total_pages, 2);
    assert_eq!(PaginationMeta::new(1, 20, 0).total_pages, 0);
    assert_eq!(PaginationMeta::new(1, 0, 0).total_pages, 0);
    assert_eq!(PaginationMeta::new(1, 0, 5).total_pages, u32::MAX);
    assert_eq!(PaginationMeta::new(1, 1, u64::MAX).total_pages, u32::MAX);
}

#[test]
fn envelopes_carry_message_and_version() {
    let e = ErrorResponse::new("boom".to_string());
    assert_eq!(e.message, "boom");
    assert_eq!(e.version, "v0.1.0");
    let s = SingleResponse::new(5u8);
    assert_eq!(s.message, "Success");
    assert_eq!(s.data, 5);
    let s = SingleResponse::with_message("Created".to_string(), 6u8);
    assert_eq!(s.message, "Created");
    let m = MessageOnlyResponse::new("ok".to_string());
    assert_eq!((m.message.as_str(), m.version.as_str()), ("ok", "v0.1.0"));
    let l = ListResponse::new(vec![1u8, 2], PaginationMeta::new(1, 20, 2));
    assert_eq!(l.message, "Success");
    assert_eq!(l.data, vec![1, 2]);
    assert_eq!(l.meta.total_pages, 1);
    let l = ListResponse::with_message("Here".to_string(), Vec::<u8>::new(), PaginationMeta::new(1, 20, 0));
    assert_eq!(l.message, "Here");
    assert_eq!(l.version, "v0.1.0");
}

#[test]
fn errors_map_to_statuses() {
    let cases = vec![
        (AppError::NotFound("a".to_string()), 404, "Not found: a"),
        (AppError::BadRequest("b".to_string()), 400, "Bad request: b"),
        (AppError::ValidationError("c".to_string()), 400, "Validation error: c"),
        (AppError::Unauthorized("d".to_string()), 401, "Unauthorized: d"),
        (AppError::DownloadFailed("e".to_string()), 422, "Download failed: e"),
        (AppError::InvalidUrl("f".to_string()), 400, "Invalid URL: f"),
        (AppError::VideoUnavailable("g".to_string()), 422, "Video unavailable: g"),
        (AppError::InternalError("h".to_string()), 500, "Internal error: h"),
    ];
    for (err, status, text) in cases {
        assert_eq!(err.status_code(), status);
        assert_eq!(err.to_string(), text);
        let detail = text.split(": ").nth(1).unwrap().to_string();
        let (s, body) = err.into_status_and_body();
        assert_eq!(s, status);
        assert_eq!(body.message, detail);
        assert_eq!(body.version, "v0.1.0");
    }
}

#[test]
fn quality_labels_and_ranks() {
    let all = [
        (VideoQuality::Best, "best"),
        (VideoQuality::Quality2160p, "2160p"),
        (VideoQuality::Quality1440p, "1440p"),
        (VideoQuality::Quality1080p, "1080p"),
        (VideoQuality::Quality720p, "720p"),
        (VideoQuality::Quality480p, "480p"),
        (VideoQuality::Quality360p, "360p"),
        (VideoQuality::AudioOnly, "audio"),
    ];
    for (i, (quality, label)) in all.iter().enumerate() {
        assert_eq!(quality.to_string(), *label);
        assert_eq!(quality.rank() as usize, i);
    }
    assert_eq!(VideoQuality::default(), VideoQuality::Best);
}

fn info_with(duration: u64, formats: Vec<VideoFormat>) -> VideoInfo {
    VideoInfo {
        video_id: "dQw4w9WgXcQ".to_string(),
        title: "t".to_string(),
        description: None,
        channel: "c".to_string(),
        channel_id: "cid".to_string(),
        duration_seconds: duration,
        view_count: Some(1),
        like_count: None,
        thumbnail_url: None,
        upload_date: None,
        available_formats: formats,
    }
}

#[test]
fn durations_are_spelled_out() {
    assert_eq!(info_with(0, vec![]).duration_formatted(), "0:00");
    assert_eq!(info_with(59, vec![]).duration_formatted(), "0:59");
    assert_eq!(info_with(61, vec![]).duration_formatted(), "1:01");
    assert_eq!(info_with(212, vec![]).duration_formatted(), "3:32");
    assert_eq!(info_with(3600, vec![]).duration_formatted(), "1:00:00");
    assert_eq!(info_with(3725, vec![]).duration_formatted(), "1:02:05");
    assert_eq!(info_with(360000, vec![]).duration_formatted(), "100:00:00");
}

fn fmt(id: &str, quality: VideoQuality, has_audio: bool) -> VideoFormat {
    VideoFormat {
        quality,
        format_id: id.to_string(),
        extension: "mp4".to_string(),
        file_size: None,
        has_video: quality != VideoQuality::AudioOnly,
        has_audio,
    }
}

#[test]
fn video_info_response_lists_labels() {
    let info = info_with(
        3725,
        vec![fmt("1", VideoQuality::Quality1080p, true), fmt("2", VideoQuality::AudioOnly, true)],
    );
    let r = VideoInfoResponse::from(info);
    assert_eq!(r.duration, "1:02:05");
    assert_eq!(r.duration_seconds, 3725);
    assert_eq!(r.available_qualities, vec!["1080p".to_string(), "audio".to_string()]);
    assert_eq!(r.video_id, "dQw4w9WgXcQ");
    assert_eq!(r.channel_id, "cid");
}

#[test]
fn video_ids_are_found_in_links() {
    let ok = |u: &str| GetVideoInfo::extract_video_id(u).ok().unwrap();
    assert_eq!(ok("https://www.youtube.com/watch?v=dQw4w9WgXcQ"), "dQw4w9WgXcQ");
    assert_eq!(ok("https://www.youtube.com/watch?feature=share&v=dQw4w9WgXcQ"), "dQw4w9WgXcQ");
    assert_eq!(ok("https://youtu.be/dQw4w9WgXcQ?t=10"), "dQw4w9WgXcQ");
    assert_eq!(ok("https://www.youtube.com/embed/dQw4w9WgXcQ"), "dQw4w9WgXcQ");
    assert_eq!(ok("https://www.youtube.com/v/dQw4w9WgXcQ"), "dQw4w9WgXcQ");
    assert_eq!(ok("https://youtube.com/shorts/abcdefghijk"), "abcdefghijk");
    assert_eq!(ok("dQw4w9WgXcQ"), "dQw4w9WgXcQ");
    // The furthest `v=` on the line wins.
    assert_eq!(ok("youtube.com/watch?v=AAAAAAAAAAA&v=BBBBBBBBBBB"), "BBBBBBBBBBB");
    // Only the first eleven id characters are taken.
    assert_eq!(ok("youtube.com/watch?v=abcdefghijklmnop"), "abcdefghijk");
    // A line break ends what may stand between the prefix and `v=`.
    assert_eq!(ok("youtube.com/watch?x\nv=AAAAAAAAAAA youtu.be/CCCCCCCCCCC"), "CCCCCCCCCCC");
    // The watch link is preferred even when a short link comes first.
    assert_eq!(ok("youtu.be/CCCCCCCCCCC youtube.com/watch?v=AAAAAAAAAAA"), "AAAAAAAAAAA");
}

#[test]
fn unrecognised_links_are_invalid() {
    for u in ["", "dQw4w9WgXc", "dQw4w9WgXcQQ", "https://vimeo.com/12345", "youtube.com/watch?v=short"] {
        match GetVideoInfo::extract_video_id(u) {
            Err(AppError::InvalidUrl(m)) => assert_eq!(
                m,
                "Could not extract video ID from URL. Please provide a valid YouTube URL."
            ),
            _ => panic!("expected an invalid URL for {u:?}"),
        }
    }
}

#[test]
fn heights_map_to_qualities() {
    let cases = [
        (4320, VideoQuality::Quality2160p),
        (2160, VideoQuality::Quality2160p),
        (2159, VideoQuality::Quality1440p),
        (1440, VideoQuality::Quality1440p),
        (1080, VideoQuality::Quality1080p),
        (720, VideoQuality::Quality720p),
        (719, VideoQuality::Quality480p),
        (480, VideoQuality::Quality480p),
        (479, VideoQuality::Quality360p),
        (0, VideoQuality::Quality360p),
    ];
    for (h, quality) in cases {
        assert_eq!(GetVideoInfo::quality_from_height(h), quality);
    }
}

fn raw(id: &str, height: Option<u64>, v: Option<&str>, a: Option<&str>) -> YtDlpFormat {
    YtDlpFormat {
        format_id: id.to_string(),
        ext: "webm".to_string(),
        height,
        filesize: None,
        filesize_approx: Some(10),
        vcodec: v.map(|s| s.to_string()),
        acodec: a.map(|s| s.to_string()),
    }
}

#[test]
fn formats_are_deduplicated_and_ordered() {
    let fs = vec![
        raw("a", None, Some("none"), Some("opus")),
        raw("v360", Some(360), Some("vp9"), Some("none")),
        raw("v1080", Some(1080), Some("vp9"), None),
        raw("m1080", Some(1080), Some("avc1"), Some("mp4a")),
        raw("v1080b", Some(1088), Some("av01"), Some("none")),
        raw("a2", None, None, Some("mp4a")),
        raw("nothing", Some(720), Some("none"), Some("none")),
        raw("noheight", None, Some("vp9"), Some("opus")),
    ];
    let out = GetVideoInfo::available_formats(&Some(fs));
    let ids: Vec<&str> = out.iter().map(|f| f.format_id.as_str()).collect();
    assert_eq!(ids, vec!["v1080", "m1080", "v360", "a"]);
    assert_eq!(out[0].quality, VideoQuality::Quality1080p);
    assert!(!out[0].has_audio);
    assert!(out[1].has_audio);
    assert_eq!(out[3].quality, VideoQuality::AudioOnly);
    assert_eq!(out[3].file_size, Some(10));
    assert!(!out[3].has_video);
}

#[test]
fn empty_listing_offers_fallback() {
    for listing in [None, Some(vec![]), Some(vec![raw("x", None, Some("none"), Some("none"))])] {
        let out = GetVideoInfo::available_formats(&listing);
        assert_eq!(out.len(), 1);
        assert_eq!(out[0].quality, VideoQuality::Best);
        assert_eq!(out[0].format_id, "best");
        assert_eq!(out[0].extension, "mp4");
        assert_eq!(out[0].file_size, None);
        assert!(out[0].has_video && out[0].has_audio);
    }
}

#[test]
fn upload_dates_are_read() {
    assert_eq!(GetVideoInfo::parse_upload_date("20240131"), Some(1706659200));
    assert_eq!(GetVideoInfo::parse_upload_date("19700101"), Some(0));
    assert_eq!(GetVideoInfo::parse_upload_date("20000229"), Some(951782400));
    assert_eq!(GetVideoInfo::parse_upload_date("19690101"), Some(-31536000));
    assert_eq!(GetVideoInfo::parse_upload_date("20230229"), None);
    assert_eq!(GetVideoInfo::parse_upload_date("20231301"), None);
    assert_eq!(GetVideoInfo::parse_upload_date("20230100"), None);
    assert_eq!(GetVideoInfo::parse_upload_date("2024013"), None);
    assert_eq!(GetVideoInfo::parse_upload_date("2024-1-1"), None);
    assert_eq!(GetVideoInfo::parse_upload_date("+2020+1+1"), None);
    assert_eq!(GetVideoInfo::parse_upload_date("+202+1+1"), Some(-55792713600));
}

#[test]
fn summaries_fill_in_defaults() {
    let info = YtDlpInfo {
        id: "dQw4w9WgXcQ".to_string(),
        title: "Title".to_string(),
        description: Some("d".to_string()),
        channel: None,
        channel_id: None,
        duration: None,
        view_count: Some(7),
        like_count: Some(3),
        thumbnail: Some("th".to_string()),
        upload_date: Some("20240131".to_string()),
        formats: None,
    };
    let s = GetVideoInfo::summarize(info);
    assert_eq!(s.channel, "Unknown");
    assert_eq!(s.channel_id, "");
    assert_eq!(s.duration_seconds, 0);
    assert_eq!(s.upload_date, Some(1706659200));
    assert_eq!(s.view_count, Some(7));
    assert_eq!(s.available_formats.len(), 1);
}

#[test]
fn lookup_helpers() {
    assert_eq!(GetVideoInfo::watch_url("abc"), "https://www.youtube.com/watch?v=abc");
    assert!(GetVideoInfo::check_ytdlp(true).is_ok());
    match GetVideoInfo::check_ytdlp(false) {
        Err(AppError::InternalError(m)) => assert!(m.starts_with("yt-dlp not found")),
        _ => panic!("expected an internal error"),
    }
    assert!(GetVideoInfo::lookup_status(true, "x").is_ok());
    match GetVideoInfo::lookup_status(false, "no such video") {
        Err(AppError::VideoUnavailable(m)) => assert_eq!(m, "yt-dlp failed: no such video"),
        _ => panic!("expected an unavailable video"),
    }
}

#[test]
fn ids_are_written_as_uuids() {
    assert_eq!(id_to_text(0), "00000000-0000-0000-0000-000000000000");
    assert_eq!(
        id_to_text(0x67e5504410b1426f9247bb680e5fe0c8),
        "67e55044-10b1-426f-9247-bb680e5fe0c8"
    );
}

fn sample_download() -> Download {
    Download::new("vid".to_string(), "url".to_string(), "title".to_string(), VideoQuality::Quality720p)
}

#[test]
fn new_downloads_are_pending() {
    let d = sample_download();
    let e = sample_download();
    assert_ne!(d.id, e.id);
    assert_eq!(d.status, DownloadStatus::Pending);
    assert_eq!(d.progress, 0);
    assert_eq!(d.created_at, d.updated_at);
    assert!(d.created_at.secs > 1_600_000_000 && d.created_at.nanos < 1_000_000_000);
    assert!(d.file_path.is_none() && d.file_size.is_none() && d.error_message.is_none());
    assert!(d.completed_at.is_none());
    assert!(!d.is_terminal());
    assert_eq!(DownloadStatus::default(), DownloadStatus::Pending);
}

#[test]
fn download_life_cycle() {
    let mut d = sample_download();
    d.start_fetching();
    assert_eq!(d.status, DownloadStatus::Fetching);
    d.start_downloading();
    assert_eq!(d.status, DownloadStatus::Downloading);
    d.update_progress(4550);
    assert_eq!(d.progress, 4550);
    d.update_progress(-3);
    assert_eq!(d.progress, 0);
    d.update_progress(20000);
    assert_eq!(d.progress, FULL_PROGRESS);
    d.start_processing();
    assert_eq!(d.status, DownloadStatus::Processing);
    assert!(!d.is_terminal());
    let mut failed = d.clone();
    d.complete("/tmp/x.mp4".to_string(), 1234);
    assert_eq!(d.status, DownloadStatus::Completed);
    assert_eq!(d.progress, FULL_PROGRESS);
    assert_eq!(d.file_path.as_deref(), Some("/tmp/x.mp4"));
    assert_eq!(d.file_size, Some(1234));
    assert!(d.completed_at.is_some());
    assert!(d.is_terminal());
    failed.fail("network".to_string());
    assert_eq!(failed.status, DownloadStatus::Failed);
    assert_eq!(failed.error_message.as_deref(), Some("network"));
    assert!(failed.is_terminal());
    let mut c = sample_download();
    c.cancel();
    assert_eq!(c.status, DownloadStatus::Cancelled);
    assert!(c.is_terminal());
    assert_eq!(c.status.debug_name(), "Cancelled");
}

#[test]
fn timestamps_order() {
    let a = Timestamp { secs: 5, nanos: 10 };
    let b = Timestamp { secs: 5, nanos: 11 };
    let c = Timestamp { secs: 6, nanos: 0 };
    assert!(a.is_before(&b) && b.is_before(&c) && a.is_before(&c));
    assert!(!b.is_before(&a) && !a.is_before(&a));
}
