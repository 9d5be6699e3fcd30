//! The operations the API offers on downloads.

use vstd::prelude::*;

use crate::download_worker::{is_active, is_worker_step, DownloadWorker, WorkerEvent, WorkerPhase};
use crate::download::{clamped_progress, is_terminal_status, status_name, Download, DownloadStatus, FULL_PROGRESS};
use crate::errors::AppError;
use crate::get_video_info::{missing_tool_message, GetVideoInfo};
use crate::ids::{id_to_text, is_random_uuid, uuid_text};
use crate::pagination::{pages_needed, PaginationMeta};
use crate::repository::{enumerates, lookup, newest_first, page_of, upsert, InMemoryDownloadRepository};
use crate::video_info::VideoQuality;

verus! {

/// Message of the error given for an unknown download id.
pub open spec fn not_found_message(id: u128) -> Seq<char> {
    "Download "@ + uuid_text(id) + " not found"@
}

/// Message of the error given when cancelling a finished download.
pub open spec fn cannot_cancel_message(s: DownloadStatus) -> Seq<char> {
    "Cannot cancel download with status: "@ + status_name(s)
}

fn not_found(id: u128) -> (r: AppError)
    ensures
        r matches AppError::NotFound(m) && m@ == not_found_message(id),
{
    let mut m = String::from_str("Download ");
    let t = id_to_text(id);
    m.append(t.as_str());
    m.append(" not found");
    AppError::NotFound(m)
}

/// Use case: fetch one download.
pub struct GetDownload;

impl GetDownload {
    pub fn new() -> Self {
        GetDownload
    }

    pub fn execute(&self, repository: &InMemoryDownloadRepository, id: u128) -> (r: Result<
        Download,
        AppError,
    >)
        ensures
            match lookup(repository.stored(), id) {
                Some(d) => r == Ok::<Download, AppError>(d),
                None => r matches Err(AppError::NotFound(m)) && m@ == not_found_message(id),
            },
    {
        match repository.find_by_id(id) {
            Some(d) => Ok(d),
            None => Err(not_found(id)),
        }
    }
}

/// Use case: list downloads page by page, newest first.
pub struct ListDownloads;

impl ListDownloads {
    pub fn new() -> Self {
        ListDownloads
    }

    /// The page's downloads and its bookkeeping. The page must be at least 1
    /// and the offset it implies must fit in a `u32`.
    pub fn execute(&self, repository: &InMemoryDownloadRepository, page: u32, per_page: u32) -> (r:
        Result<(Vec<Download>, PaginationMeta), AppError>)
        requires
            page >= 1,
            (page - 1) * per_page <= u32::MAX,
        ensures
            r matches Ok((items, meta)) && (exists|s: Seq<Download>|
                enumerates(repository.stored(), s) && items@ == page_of(
                    newest_first(s),
                    per_page as int,
                    (page - 1) * per_page,
                )) && meta.page == page && meta.per_page == per_page && meta.total_items
                == repository.stored().len() && meta.total_pages == pages_needed(
                per_page,
                repository.stored().len() as u64,
            ),
    {
        proof {
            assert(0 <= (page - 1) * per_page) by (nonlinear_arith)
                requires page >= 1;
        }
        let offset = (page - 1) * per_page;
        let items = repository.find_all(per_page, offset);
        let total = repository.count_all();
        let meta = PaginationMeta::new(page, per_page, total);
        Ok((items, meta))
    }
}

/// Use case: cancel a download that has not finished.
pub struct CancelDownload;

impl CancelDownload {
    pub fn new() -> Self {
        CancelDownload
    }

    /// Unknown ids are not found; finished downloads cannot be cancelled and
    /// stay as they are; any other download is marked cancelled, stored and
    /// returned.
    pub fn execute(&self, repository: &mut InMemoryDownloadRepository, id: u128) -> (r: Result<
        Download,
        AppError,
    >)
        ensures
            match lookup(old(repository).stored(), id) {
                None => r matches Err(AppError::NotFound(m)) && m@ == not_found_message(id)
                    && final(repository).stored() == old(repository).stored(),
                Some(d) => if is_terminal_status(d.status) {
                    r matches Err(AppError::BadRequest(m)) && m@ == cannot_cancel_message(d.status)
                        && final(repository).stored() == old(repository).stored()
                } else {
                    r matches Ok(c) && c == d.moved_to(DownloadStatus::Cancelled, c.updated_at)
                        && final(repository).stored() == upsert(old(repository).stored(), c)
                },
            },
    {
        let mut download = match repository.find_by_id(id) {
            Some(d) => d,
            None => {
                return Err(not_found(id));
            },
        };
        if download.is_terminal() {
            let mut m = String::from_str("Cannot cancel download with status: ");
            let name = download.status.debug_name();
            m.append(name.as_str());
            return Err(AppError::BadRequest(m));
        }
        if download.status == DownloadStatus::Cancelled {
            return Err(AppError::BadRequest(String::from_str("Download already cancelled")));
        }
        download.cancel();
        Ok(repository.update(download))
    }
}

/// A step of a running download, as its worker reports it.
pub enum DownloadEvent {
    Fetching,
    Downloading,
    /// Progress in hundredths of a percent.
    Progress(i64),
    Processing,
    Completed(String, u64),
    Failed(String),
}

/// `n` is `d` after `event`, touched at the times `n` carries.
pub open spec fn after_event(d: Download, event: DownloadEvent, n: Download) -> bool {
    &&& n.updated_at.is_clock_reading()
    &&& match event {
        DownloadEvent::Fetching => n == d.moved_to(DownloadStatus::Fetching, n.updated_at),
        DownloadEvent::Downloading => n == d.moved_to(DownloadStatus::Downloading, n.updated_at),
        DownloadEvent::Progress(p) => n == d.with_progress(clamped_progress(p), n.updated_at),
        DownloadEvent::Processing => n == d.moved_to(DownloadStatus::Processing, n.updated_at),
        DownloadEvent::Completed(path, size) => n == (Download {
            status: DownloadStatus::Completed,
            progress: FULL_PROGRESS,
            file_path: Some(path),
            file_size: Some(size),
            completed_at: n.completed_at,
            updated_at: n.updated_at,
            ..d
        }) && (n.completed_at matches Some(t) && t.is_clock_reading()),
        DownloadEvent::Failed(m) => n == (Download {
            status: DownloadStatus::Failed,
            error_message: Some(m),
            updated_at: n.updated_at,
            ..d
        }),
    }
}

/// The text a failure is recorded with: the error's rendering.
pub open spec fn failure_text(event: WorkerEvent) -> Seq<char> {
    match event {
        WorkerEvent::Failure(e) => e.display_prefix() + e.detail(),
        _ => Seq::empty(),
    }
}

/// How the store moves when the step `rec` is recorded for `id`: nothing
/// happens without a step or a stored download; otherwise the download is
/// updated as `after_event` says and `out` is its new state.
pub open spec fn records_step(
    before: Map<u128, Download>,
    after: Map<u128, Download>,
    id: u128,
    rec: Option<DownloadEvent>,
    out: Option<Download>,
) -> bool {
    match rec {
        None => after == before && out is None,
        Some(ev) => match lookup(before, id) {
            None => after == before && out is None,
            Some(d) => out matches Some(n) && after_event(d, ev, n) && after == upsert(before, n),
        },
    }
}

/// Every reported step keeps a download's progress within `0..=100%`.
pub proof fn steps_keep_progress_in_range(d: Download, event: DownloadEvent, n: Download)
    requires
        d.progress_in_range(),
        after_event(d, event, n),
    ensures
        n.progress_in_range(),
{
}

/// Use case: queue a download and drive it through its life cycle.
pub struct CreateDownload;

impl CreateDownload {
    pub fn new() -> Self {
        CreateDownload
    }

    /// Stores a new pending download and returns it, once the download tool
    /// is known to be installed; without the tool the request fails with an
    /// internal error and nothing is stored.
    pub fn execute(
        &self,
        repository: &mut InMemoryDownloadRepository,
        ytdlp_found: bool,
        video_id: String,
        video_url: String,
        title: String,
        quality: VideoQuality,
    ) -> (r: Result<Download, AppError>)
        ensures
            !ytdlp_found ==> (r matches Err(AppError::InternalError(m)) && m@ == missing_tool_message()
                && final(repository).stored() == old(repository).stored()),
            ytdlp_found ==> (r matches Ok(d) && d.video_id == video_id && d.video_url == video_url
                && d.title == title && d.quality == quality && d.status == DownloadStatus::Pending
                && d.progress == 0 && d.file_path is None && d.file_size is None
                && d.error_message is None && d.completed_at is None && d.created_at
                == d.updated_at && d.created_at.is_clock_reading() && is_random_uuid(d.id)
                && final(repository).stored() == upsert(old(repository).stored(), d)),
    {
        GetVideoInfo::check_ytdlp(ytdlp_found)?;
        let download = Download::new(video_id, video_url, title, quality);
        Ok(repository.create(download))
    }

    /// Applies a reported step to the stored download with the given id and
    /// returns its new state; an id no longer stored is left alone.
    pub fn record(repository: &mut InMemoryDownloadRepository, id: u128, event: DownloadEvent) -> (r:
        Option<Download>)
        ensures
            match lookup(old(repository).stored(), id) {
                None => r is None && final(repository).stored() == old(repository).stored(),
                Some(d) => r matches Some(n) && after_event(d, event, n)
                    && final(repository).stored() == upsert(old(repository).stored(), n),
            },
    {
        let mut d = match repository.find_by_id(id) {
            Some(d) => d,
            None => {
                return None;
            },
        };
        match event {
            DownloadEvent::Fetching => d.start_fetching(),
            DownloadEvent::Downloading => d.start_downloading(),
            DownloadEvent::Progress(p) => d.update_progress(p),
            DownloadEvent::Processing => d.start_processing(),
            DownloadEvent::Completed(path, size) => d.complete(path, size),
            DownloadEvent::Failed(m) => d.fail(m),
        }
        Some(repository.update(d))
    }

    /// Moves a download worker one step and records the step for the
    /// download it works on. In particular a failure while the worker is
    /// active marks the stored download failed with the error's text.
    pub fn advance(
        repository: &mut InMemoryDownloadRepository,
        id: u128,
        phase: WorkerPhase,
        event: WorkerEvent,
    ) -> (r: (WorkerPhase, Option<Download>))
        ensures
            exists|rec: Option<DownloadEvent>|
                is_worker_step(phase, event, r.0, rec) && records_step(
                    old(repository).stored(),
                    final(repository).stored(),
                    id,
                    rec,
                    r.1,
                ),
            (event is Failure && is_active(phase)) ==> (r.0 is Failed && match lookup(
                old(repository).stored(),
                id,
            ) {
                None => final(repository).stored() == old(repository).stored(),
                Some(d) => r.1 matches Some(n) && n == (Download {
                    status: DownloadStatus::Failed,
                    error_message: n.error_message,
                    updated_at: n.updated_at,
                    ..d
                }) && (n.error_message matches Some(m) && m@ == failure_text(event))
                    && final(repository).stored() == upsert(old(repository).stored(), n),
            }),
    {
        let ghost ev = event;
        let ghost ph = phase;
        let (next, rec) = DownloadWorker::step(phase, event);
        let ghost g = rec;
        let out = match rec {
            Some(e) => Self::record(repository, id, e),
            None => None,
        };
        proof {
            assert(is_worker_step(ph, ev, next, g));
            assert(records_step(old(repository).stored(), repository.stored(), id, g, out));
        }
        (next, out)
    }
}

} // verus!
