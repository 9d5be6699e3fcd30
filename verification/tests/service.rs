use hpyd::config::{Config, LogFormat};
use hpyd::download::{Download, DownloadStatus, FULL_PROGRESS};
use hpyd::download_worker::{DownloadWorker, WorkerEvent, WorkerPhase};
use hpyd::errors::AppError;
use hpyd::ffmpeg::Ffmpeg;
use hpyd::repository::InMemoryDownloadRepository;
use hpyd::s3::{S3Config, S3Service};
use hpyd::get_video_info::GetVideoInfo;
use hpyd::text::parse_unsigned;
use hpyd::use_cases::{CancelDownload, CreateDownload, DownloadEvent, GetDownload, ListDownloads};
use hpyd::video_info::VideoQuality;

fn make(title: &str) -> Download {
    Download::new("vid".to_string(), "url".to_string(), title.to_string(), VideoQuality::Best)
}

fn titles(v: &[Download]) -> Vec<String> {
    v.iter().map(|d| d.title.clone()).collect()
}

#[test]
fn stored_downloads_are_found_again() {
    let mut repo = InMemoryDownloadRepository::new();
    let d = make("a");
    let id = d.id;
    let back = repo.create(d.clone());
    assert_eq!(back.id, id);
    assert_eq!(repo.count_all(), 1);
    assert_eq!(repo.find_by_id(id).map(|x| x.title), Some("a".to_string()));
    assert!(repo.find_by_id(id.wrapping_add(1)).is_none());
    let mut changed = d.clone();
    changed.title = "b".to_string();
    repo.update(changed);
    assert_eq!(repo.count_all(), 1);
    assert_eq!(repo.find_by_id(id).map(|x| x.title), Some("b".to_string()));
    repo.delete(id);
    assert!(repo.find_by_id(id).is_none());
    assert_eq!(repo.count_all(), 0);
    repo.delete(id);
    assert_eq!(repo.count_all(), 0);
}

#[test]
fn deleting_a_new_download_restores_the_store() {
    let mut repo = InMemoryDownloadRepository::new();
    let keep = make("keep");
    let keep_id = keep.id;
    repo.create(keep);
    let before = titles(&repo.find_all(10, 0));
    let fresh = make("fresh");
    let fresh_id = fresh.id;
    repo.create(fresh);
    assert_eq!(repo.count_all(), 2);
    repo.delete(fresh_id);
    assert_eq!(titles(&repo.find_all(10, 0)), before);
    assert_eq!(repo.find_by_id(keep_id).map(|d| d.title), Some("keep".to_string()));
}

#[test]
fn listings_are_newest_first_and_paged() {
    let mut repo = InMemoryDownloadRepository::new();
    let mut stamps = Vec::new();
    for (i, t) in ["a", "b", "c", "d", "e"].iter().enumerate() {
        let mut d = make(t);
        d.created_at.secs = [30, 10, 50, 20, 40][i];
        d.created_at.nanos = 0;
        stamps.push(d.created_at.secs);
        repo.create(d);
    }
    assert_eq!(titles(&repo.find_all(10, 0)), vec!["c", "e", "a", "d", "b"]);
    assert_eq!(titles(&repo.find_all(2, 1)), vec!["e", "a"]);
    assert_eq!(titles(&repo.find_all(2, 4)), vec!["b"]);
    assert!(repo.find_all(2, 5).is_empty());
    assert!(repo.find_all(0, 0).is_empty());
}

#[test]
fn listings_hold_downloads_created_together() {
    let mut repo = InMemoryDownloadRepository::new();
    for (t, secs) in [("old", 5), ("x", 9), ("y", 9)] {
        let mut d = make(t);
        d.created_at.secs = secs;
        d.created_at.nanos = 0;
        repo.create(d);
    }
    let listed = titles(&repo.find_all(10, 0));
    assert_eq!(listed.len(), 3);
    assert_eq!(listed[2], "old");
    let mut first_two = vec![listed[0].clone(), listed[1].clone()];
    first_two.sort();
    assert_eq!(first_two, vec!["x", "y"]);
}

#[test]
fn get_download_reports_missing_ids() {
    let mut repo = InMemoryDownloadRepository::new();
    let d = make("a");
    let id = d.id;
    repo.create(d);
    let uc = GetDownload::new();
    assert_eq!(uc.execute(&repo, id).ok().map(|d| d.title), Some("a".to_string()));
    match uc.execute(&repo, 0x67e5504410b1426f9247bb680e5fe0c8) {
        Err(AppError::NotFound(m)) => {
            assert_eq!(m, "Download 67e55044-10b1-426f-9247-bb680e5fe0c8 not found")
        }
        _ => panic!("expected not found"),
    }
}

#[test]
fn list_downloads_pages_and_counts() {
    let mut repo = InMemoryDownloadRepository::new();
    for t in ["a", "b", "c"] {
        repo.create(make(t));
    }
    let uc = ListDownloads::new();
    let (items, meta) = uc.execute(&repo, 2, 2).ok().unwrap();
    assert_eq!(items.len(), 1);
    assert_eq!((meta.page, meta.per_page, meta.total_items, meta.total_pages), (2, 2, 3, 2));
    let (items, meta) = uc.execute(&repo, 1, 20).ok().unwrap();
    assert_eq!(items.len(), 3);
    assert_eq!(meta.total_pages, 1);
}

#[test]
fn cancelling_only_unfinished_downloads() {
    let mut repo = InMemoryDownloadRepository::new();
    let uc = CancelDownload::new();
    let d = make("a");
    let id = d.id;
    repo.create(d);
    let c = uc.execute(&mut repo, id).ok().unwrap();
    assert_eq!(c.status, DownloadStatus::Cancelled);
    assert_eq!(repo.find_by_id(id).unwrap().status, DownloadStatus::Cancelled);
    match uc.execute(&mut repo, id) {
        Err(AppError::BadRequest(m)) => assert_eq!(m, "Cannot cancel download with status: Cancelled"),
        _ => panic!("expected a refusal"),
    }
    let mut done = make("b");
    done.complete("/x".to_string(), 1);
    let done_id = done.id;
    repo.create(done);
    match uc.execute(&mut repo, done_id) {
        Err(AppError::BadRequest(m)) => assert_eq!(m, "Cannot cancel download with status: Completed"),
        _ => panic!("expected a refusal"),
    }
    assert_eq!(repo.find_by_id(done_id).unwrap().status, DownloadStatus::Completed);
    match uc.execute(&mut repo, 0) {
        Err(AppError::NotFound(m)) => assert_eq!(m, "Download 00000000-0000-0000-0000-000000000000 not found"),
        _ => panic!("expected not found"),
    }
}

#[test]
fn created_downloads_follow_reported_steps() {
    let mut repo = InMemoryDownloadRepository::new();
    let uc = CreateDownload::new();
    let d = uc
        .execute(&mut repo, true, "vid".to_string(), "url".to_string(), "T".to_string(), VideoQuality::AudioOnly)
        .ok()
        .unwrap();
    assert_eq!(d.status, DownloadStatus::Pending);
    assert_eq!(repo.count_all(), 1);
    let id = d.id;
    let n = CreateDownload::record(&mut repo, id, DownloadEvent::Fetching).unwrap();
    assert_eq!(n.status, DownloadStatus::Fetching);
    CreateDownload::record(&mut repo, id, DownloadEvent::Downloading);
    let n = CreateDownload::record(&mut repo, id, DownloadEvent::Progress(1234)).unwrap();
    assert_eq!(n.progress, 1234);
    assert_eq!(n.status, DownloadStatus::Downloading);
    CreateDownload::record(&mut repo, id, DownloadEvent::Processing);
    let n = CreateDownload::record(&mut repo, id, DownloadEvent::Completed("/f.m4a".to_string(), 9)).unwrap();
    assert_eq!(n.status, DownloadStatus::Completed);
    assert_eq!(n.progress, FULL_PROGRESS);
    assert_eq!(repo.find_by_id(id).unwrap().file_size, Some(9));
    let n = CreateDownload::record(&mut repo, id, DownloadEvent::Failed("late".to_string())).unwrap();
    assert_eq!(n.status, DownloadStatus::Failed);
    assert!(CreateDownload::record(&mut repo, id.wrapping_add(1), DownloadEvent::Fetching).is_none());
}

#[test]
fn file_names_are_made_safe() {
    assert_eq!(DownloadWorker::file_stem("  My Video: Part 1/2  "), "My Video_ Part 1_2");
    assert_eq!(DownloadWorker::file_stem("über-cool_clip"), "über-cool_clip");
    assert_eq!(DownloadWorker::file_stem("   "), "");
    assert_eq!(DownloadWorker::file_stem("a\tb"), "a_b");
    assert_eq!(DownloadWorker::file_stem("../etc/x.y"), "___etc_x_y");
    assert_eq!(DownloadWorker::file_stem("a\\b"), "a_b");
    assert_eq!(DownloadWorker::file_stem(" \u{a0}Ünï 7 "), "_Ünï 7");
    assert_eq!(DownloadWorker::output_template("x"), "x.%(ext)s");
    assert_eq!(DownloadWorker::expected_file_name("x", VideoQuality::AudioOnly), "x.m4a");
    assert_eq!(DownloadWorker::expected_file_name("x", VideoQuality::Quality720p), "x.mp4");
}

#[test]
fn format_selectors() {
    assert_eq!(
        DownloadWorker::format_selector(VideoQuality::Best),
        "bestvideo[ext=mp4]+bestaudio[ext=m4a]/best[ext=mp4]/best"
    );
    assert_eq!(
        DownloadWorker::format_selector(VideoQuality::Quality720p),
        "bestvideo[height<=720][ext=mp4]+bestaudio[ext=m4a]/best[height<=720]"
    );
    assert_eq!(DownloadWorker::format_selector(VideoQuality::AudioOnly), "bestaudio[ext=m4a]/bestaudio");
}

#[test]
fn progress_lines_are_read() {
    let tok = |l: &str| DownloadWorker::progress_token(l);
    assert_eq!(tok("[download]  45.3% of 10.00MiB at 1.00MiB/s ETA 00:05"), Some("45.3".to_string()));
    assert_eq!(tok("[download] 100% of 10.00MiB"), Some("100".to_string()));
    assert_eq!(tok("[download] Destination: x.mp4"), None);
    assert_eq!(tok("[info] 50% done"), None);
    assert_eq!(tok("[download]% weird"), Some("[download]".to_string()));
    assert_eq!(tok("  % [download]"), None);
    assert_eq!(tok("[download]\u{3000}12.5% of 1MiB"), Some("12.5".to_string()));
    assert!(DownloadWorker::announces_processing("[Merger] Merging formats into \"x.mp4\""));
    assert!(DownloadWorker::announces_processing("[ffmpeg] Fixing"));
    assert!(!DownloadWorker::announces_processing("[download] 5%"));
}

#[test]
fn downloaded_files_are_picked_by_stem() {
    let names = vec![None, Some("other.mp4".to_string()), Some("clip.webm".to_string()), Some("clip.mp4".to_string())];
    assert_eq!(DownloadWorker::pick_downloaded_file(&names, "clip"), Some(2));
    assert_eq!(DownloadWorker::pick_downloaded_file(&names, "zzz"), None);
    assert_eq!(
        DownloadWorker::object_key(0x67e5504410b1426f9247bb680e5fe0c8, "clip.mp4"),
        "downloaded-videos/67e55044-10b1-426f-9247-bb680e5fe0c8-clip.mp4"
    );
}

fn s(v: &str) -> Option<String> {
    Some(v.to_string())
}

#[test]
fn finished_runs_are_settled() {
    assert!(DownloadWorker::exit_outcome(true).is_ok());
    match DownloadWorker::exit_outcome(false) {
        Err(AppError::DownloadFailed(m)) => assert_eq!(m, "yt-dlp download failed"),
        _ => panic!("expected a failed download"),
    }
    let names = vec![Some("a.mp4".to_string()), Some("clip.mkv".to_string())];
    assert_eq!(DownloadWorker::choose_file(true, &names, "clip").ok().unwrap(), None);
    assert_eq!(DownloadWorker::choose_file(false, &names, "clip").ok().unwrap(), Some(1));
    match DownloadWorker::choose_file(false, &names, "zzz") {
        Err(AppError::DownloadFailed(m)) => assert_eq!(m, "Could not find downloaded file"),
        _ => panic!("expected a failed download"),
    }
}

#[test]
fn storage_settings() {
    let c = S3Config::from_values(s("e"), s("b"), s("ak"), s("sk"), None, s("https://cdn")).unwrap();
    assert_eq!(c.region, "us-east-1");
    assert_eq!(c.bucket, "b");
    let c2 = S3Config::from_values(s("e"), s("b"), s("ak"), s("sk"), s("eu-west-1"), s("p")).unwrap();
    assert_eq!(c2.region, "eu-west-1");
    assert!(S3Config::from_values(s("e"), None, s("ak"), s("sk"), None, s("p")).is_none());
    assert!(S3Config::from_values(s("e"), s("b"), s("ak"), s("sk"), None, None).is_none());
    assert_eq!(S3Service::content_type("a/b.mp4"), "video/mp4");
    assert_eq!(S3Service::content_type("a/b.m4a"), "audio/mp4");
    assert_eq!(S3Service::content_type("a/b.webm"), "application/octet-stream");
    let conf = aws_sdk_s3::Config::builder()
        .behavior_version(aws_sdk_s3::config::BehaviorVersion::latest())
        .region(aws_sdk_s3::config::Region::new("us-east-1"))
        .build();
    let service = S3Service::with_client(aws_sdk_s3::Client::from_conf(conf), &c);
    assert_eq!(service.download_url("k/x.mp4"), "https://cdn/k/x.mp4");
}

#[test]
fn media_tool_commands() {
    let args = Ffmpeg::merge_streams_args(Some("v.mp4"), Some("a.m4a"), Some("o.mp4")).ok().unwrap();
    assert_eq!(args, vec!["-i", "v.mp4", "-i", "a.m4a", "-c:v", "copy", "-c:a", "aac", "-y", "o.mp4"]);
    assert_eq!(Ffmpeg::merge_streams_args(None, None, None).err().unwrap(), "Invalid video path");
    assert_eq!(Ffmpeg::merge_streams_args(Some("v"), None, None).err().unwrap(), "Invalid audio path");
    assert_eq!(Ffmpeg::merge_streams_args(Some("v"), Some("a"), None).err().unwrap(), "Invalid output path");
    let args = Ffmpeg::extract_audio_args(Some("v.mp4"), Some("o.m4a")).ok().unwrap();
    assert_eq!(args, vec!["-i", "v.mp4", "-vn", "-acodec", "copy", "-y", "o.m4a"]);
    assert_eq!(Ffmpeg::extract_audio_args(Some("v"), None).err().unwrap(), "Invalid output path");
    assert!(Ffmpeg::merge_outcome(true, Some(0)).is_ok());
    assert_eq!(Ffmpeg::merge_outcome(false, Some(-2)).err().unwrap(), "FFmpeg merge failed with exit code: Some(-2)");
    assert_eq!(Ffmpeg::extract_outcome(false, None).err().unwrap(), "FFmpeg extract failed with exit code: None");
    assert_eq!(Ffmpeg::extract_outcome(false, Some(1)).err().unwrap(), "FFmpeg extract failed with exit code: Some(1)");
}

#[test]
fn server_settings() {
    let d = Config::default();
    assert_eq!((d.host.as_str(), d.port, d.download_dir.as_str(), d.max_concurrent_downloads), ("0.0.0.0", 3000, "./downloads", 3));
    let c = Config::from_values(None, None, None, None);
    assert_eq!((c.host.as_str(), c.port, c.max_concurrent_downloads), ("0.0.0.0", 3000, 3));
    let c = Config::from_values(s("127.0.0.1"), s("8080"), s("/data"), s("+7"));
    assert_eq!((c.host.as_str(), c.port, c.download_dir.as_str(), c.max_concurrent_downloads), ("127.0.0.1", 8080, "/data", 7));
    assert_eq!(Config::from_values(None, s("70000"), None, s("x")).port, 3000);
    assert_eq!(Config::from_values(None, s("-1"), None, s("x")).max_concurrent_downloads, 3);
    assert_eq!(LogFormat::from_setting(None), LogFormat::Pretty);
    assert_eq!(LogFormat::from_setting(s("JSON")), LogFormat::Json);
    assert_eq!(LogFormat::from_setting(s("Compact")), LogFormat::Compact);
    assert_eq!(LogFormat::from_setting(s("yaml")), LogFormat::Pretty);
}

#[test]
fn integers_are_parsed_like_std() {
    for t in ["0", "7", "+7", "65535", "65536", "", "+", "-1", "1_0", "007", " 1"] {
        assert_eq!(parse_unsigned(t, u16::MAX as u64), t.parse::<u16>().ok().map(|v| v as u64), "{t:?}");
    }
    assert_eq!(parse_unsigned("18446744073709551615", u64::MAX), Some(u64::MAX));
    assert_eq!(parse_unsigned("18446744073709551616", u64::MAX), None);
}

#[test]
fn creating_without_the_tool_fails_and_stores_nothing() {
    let mut repo = InMemoryDownloadRepository::new();
    let r = CreateDownload::new().execute(
        &mut repo,
        false,
        "vid".to_string(),
        "url".to_string(),
        "T".to_string(),
        VideoQuality::Best,
    );
    match r {
        Err(AppError::InternalError(m)) => assert_eq!(
            m,
            "yt-dlp not found. Please install yt-dlp (e.g., `nix develop` or `brew install yt-dlp`)"
        ),
        _ => panic!("expected the missing-tool error"),
    }
    assert_eq!(repo.count_all(), 0);
}

#[test]
fn created_ids_are_version_four() {
    let mut repo = InMemoryDownloadRepository::new();
    let d = CreateDownload::new()
        .execute(&mut repo, true, "v".to_string(), "u".to_string(), "T".to_string(), VideoQuality::Best)
        .ok()
        .unwrap();
    assert_eq!((d.id >> 76) & 0xF, 4);
    assert_eq!((d.id >> 62) & 0x3, 2);
}

fn is_finished(p: &WorkerPhase) -> bool {
    matches!(p, WorkerPhase::Finished)
}

#[test]
fn worker_runs_record_statuses_in_order() {
    let mut repo = InMemoryDownloadRepository::new();
    let d = CreateDownload::new()
        .execute(&mut repo, true, "v".to_string(), "u".to_string(), "T".to_string(), VideoQuality::Best)
        .ok()
        .unwrap();
    let id = d.id;
    let (p, n) = CreateDownload::advance(&mut repo, id, WorkerPhase::Idle, WorkerEvent::Started);
    assert_eq!(n.unwrap().status, DownloadStatus::Fetching);
    let (p, n) = CreateDownload::advance(&mut repo, id, p, WorkerEvent::DirectoryReady);
    assert_eq!(n.unwrap().status, DownloadStatus::Downloading);
    let (p, n) = CreateDownload::advance(&mut repo, id, p, WorkerEvent::Progress(5000));
    let n = n.unwrap();
    assert_eq!(n.status, DownloadStatus::Downloading);
    assert_eq!(n.progress, 5000);
    let (p, n) = CreateDownload::advance(&mut repo, id, p, WorkerEvent::ProcessingAnnounced);
    assert_eq!(n.unwrap().status, DownloadStatus::Processing);
    let (p, n) = CreateDownload::advance(&mut repo, id, p, WorkerEvent::Started);
    assert!(n.is_none());
    let (p, n) =
        CreateDownload::advance(&mut repo, id, p, WorkerEvent::FileReady("/d/T.mp4".to_string(), 42, true));
    assert_eq!(n.unwrap().status, DownloadStatus::Processing);
    let (p, n) = CreateDownload::advance(&mut repo, id, p, WorkerEvent::UploadDone(None));
    let n = n.unwrap();
    assert!(is_finished(&p));
    assert_eq!(n.status, DownloadStatus::Completed);
    assert_eq!(n.file_path, Some("/d/T.mp4".to_string()));
    assert_eq!(n.file_size, Some(42));
    assert_eq!(n.progress, FULL_PROGRESS);
    let (p, n) = CreateDownload::advance(
        &mut repo,
        id,
        p,
        WorkerEvent::Failure(AppError::DownloadFailed("late".to_string())),
    );
    assert!(n.is_none());
    assert!(is_finished(&p));
    assert_eq!(repo.find_by_id(id).unwrap().status, DownloadStatus::Completed);
}

#[test]
fn a_failed_run_marks_the_download_failed() {
    let mut repo = InMemoryDownloadRepository::new();
    let d = CreateDownload::new()
        .execute(&mut repo, true, "v".to_string(), "u".to_string(), "T".to_string(), VideoQuality::Best)
        .ok()
        .unwrap();
    let id = d.id;
    let (p, _) = CreateDownload::advance(&mut repo, id, WorkerPhase::Idle, WorkerEvent::Started);
    let (p, _) = CreateDownload::advance(&mut repo, id, p, WorkerEvent::DirectoryReady);
    let err = AppError::DownloadFailed("yt-dlp download failed".to_string());
    let (p, n) = CreateDownload::advance(&mut repo, id, p, WorkerEvent::Failure(err));
    assert!(matches!(p, WorkerPhase::Failed));
    let n = n.unwrap();
    assert_eq!(n.status, DownloadStatus::Failed);
    assert_eq!(n.error_message, Some("Download failed: yt-dlp download failed".to_string()));
    assert_eq!(n.title, "T");
    assert_eq!(repo.find_by_id(id).unwrap().status, DownloadStatus::Failed);
}

#[test]
fn uploads_without_a_store_complete_directly() {
    let (p, rec) = DownloadWorker::step(WorkerPhase::Downloading, WorkerEvent::FileReady("/f".to_string(), 3, false));
    assert!(is_finished(&p));
    match rec {
        Some(DownloadEvent::Completed(path, size)) => {
            assert_eq!(path, "/f");
            assert_eq!(size, 3);
        }
        _ => panic!("expected a completion"),
    }
    let (p, rec) = DownloadWorker::step(WorkerPhase::Idle, WorkerEvent::Progress(10));
    assert!(matches!(p, WorkerPhase::Idle));
    assert!(rec.is_none());
}

#[test]
fn tool_command_lines() {
    let args = DownloadWorker::download_args("best", Some("/d/x.%(ext)s"), "https://www.youtube.com/watch?v=abc");
    assert_eq!(
        args,
        vec![
            "-f",
            "best",
            "--merge-output-format",
            "mp4",
            "-o",
            "/d/x.%(ext)s",
            "--newline",
            "--progress",
            "--no-warnings",
            "https://www.youtube.com/watch?v=abc"
        ]
    );
    let args = DownloadWorker::download_args("best", None, "u");
    assert_eq!(args[5], "%(title)s.%(ext)s");
    assert_eq!(
        GetVideoInfo::lookup_args("u"),
        vec!["--dump-json", "--no-download", "--no-warnings", "u"]
    );
}
