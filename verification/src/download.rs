//! A download request and the life cycle it goes through.

use vstd::prelude::*;

use crate::clock::{current_time, Timestamp};
use crate::ids::{is_random_uuid, new_download_id};
use crate::video_info::VideoQuality;

verus! {

#[derive(Clone, Copy, Debug, PartialEq, Eq, Structural)]
pub enum DownloadStatus {
    Pending,
    Fetching,
    Downloading,
    Processing,
    Completed,
    Failed,
    Cancelled,
}

impl Default for DownloadStatus {
    fn default() -> (r: Self)
        ensures
            r == DownloadStatus::Pending,
    {
        DownloadStatus::Pending
    }
}

/// A status from which a download does not move on by itself.
pub open spec fn is_terminal_status(s: DownloadStatus) -> bool {
    s == DownloadStatus::Completed || s == DownloadStatus::Failed || s == DownloadStatus::Cancelled
}

/// The name of a status, as its debug rendering shows it.
pub open spec fn status_name(s: DownloadStatus) -> Seq<char> {
    match s {
        DownloadStatus::Pending => "Pending"@,
        DownloadStatus::Fetching => "Fetching"@,
        DownloadStatus::Downloading => "Downloading"@,
        DownloadStatus::Processing => "Processing"@,
        DownloadStatus::Completed => "Completed"@,
        DownloadStatus::Failed => "Failed"@,
        DownloadStatus::Cancelled => "Cancelled"@,
    }
}

impl DownloadStatus {
    pub fn debug_name(&self) -> (r: String)
        ensures
            r@ == status_name(*self),
    {
        let s = match self {
            DownloadStatus::Pending => "Pending",
            DownloadStatus::Fetching => "Fetching",
            DownloadStatus::Downloading => "Downloading",
            DownloadStatus::Processing => "Processing",
            DownloadStatus::Completed => "Completed",
            DownloadStatus::Failed => "Failed",
            DownloadStatus::Cancelled => "Cancelled",
        };
        String::from_str(s)
    }
}

/// Progress is kept in hundredths of a percent; this is 100%.
pub const FULL_PROGRESS: u32 = 10000;

/// A download request. `id` is the 128-bit value of its UUID; `progress` is
/// in hundredths of a percent.
pub struct Download {
    pub id: u128,
    pub video_id: String,
    pub video_url: String,
    pub title: String,
    pub quality: VideoQuality,
    pub status: DownloadStatus,
    pub progress: u32,
    pub file_path: Option<String>,
    pub file_size: Option<u64>,
    pub error_message: Option<String>,
    pub created_at: Timestamp,
    pub updated_at: Timestamp,
    pub completed_at: Option<Timestamp>,
}

fn clone_opt_string(s: &Option<String>) -> (r: Option<String>)
    ensures
        r == *s,
{
    match s {
        Some(v) => Some(v.clone()),
        None => None,
    }
}

impl Clone for Download {
    fn clone(&self) -> (r: Self)
        ensures
            r == *self,
    {
        Download {
            id: self.id,
            video_id: self.video_id.clone(),
            video_url: self.video_url.clone(),
            title: self.title.clone(),
            quality: self.quality,
            status: self.status,
            progress: self.progress,
            file_path: clone_opt_string(&self.file_path),
            file_size: self.file_size,
            error_message: clone_opt_string(&self.error_message),
            created_at: self.created_at,
            updated_at: self.updated_at,
            completed_at: self.completed_at,
        }
    }
}

/// The progress a reported value is recorded as: clamped into `0..=100%`.
pub open spec fn clamped_progress(p: i64) -> u32 {
    if p < 0 {
        0
    } else if p > FULL_PROGRESS {
        FULL_PROGRESS
    } else {
        p as u32
    }
}

impl Download {
    /// The progress lies within `0..=100%`.
    pub open spec fn progress_in_range(self) -> bool {
        self.progress <= FULL_PROGRESS
    }

    pub open spec fn spec_is_terminal(self) -> bool {
        is_terminal_status(self.status)
    }

    /// `self` with its status set to `s`, touched at `at`.
    pub open spec fn moved_to(self, s: DownloadStatus, at: Timestamp) -> Download {
        Download { status: s, updated_at: at, ..self }
    }

    /// `self` with its progress set to `p`, touched at `at`.
    pub open spec fn with_progress(self, p: u32, at: Timestamp) -> Download {
        Download { progress: p, updated_at: at, ..self }
    }

    /// A new pending download, stamped with the current time and a fresh id.
    pub fn new(video_id: String, video_url: String, title: String, quality: VideoQuality) -> (r:
        Self)
        ensures
            r.video_id == video_id,
            r.video_url == video_url,
            r.title == title,
            r.quality == quality,
            r.status == DownloadStatus::Pending,
            r.progress == 0,
            r.file_path is None,
            r.file_size is None,
            r.error_message is None,
            r.created_at == r.updated_at,
            r.completed_at is None,
            r.progress_in_range(),
            is_random_uuid(r.id),
            r.created_at.is_clock_reading(),
    {
        let now = current_time();
        Download {
            id: new_download_id(),
            video_id,
            video_url,
            title,
            quality,
            status: DownloadStatus::Pending,
            progress: 0,
            file_path: None,
            file_size: None,
            error_message: None,
            created_at: now,
            updated_at: now,
            completed_at: None,
        }
    }

    pub fn start_fetching(&mut self)
        ensures
            *final(self) == old(self).moved_to(DownloadStatus::Fetching, final(self).updated_at),
            final(self).updated_at.is_clock_reading(),
    {
        self.status = DownloadStatus::Fetching;
        self.updated_at = current_time();
    }

    pub fn start_downloading(&mut self)
        ensures
            *final(self) == old(self).moved_to(DownloadStatus::Downloading, final(self).updated_at),
            final(self).updated_at.is_clock_reading(),
    {
        self.status = DownloadStatus::Downloading;
        self.updated_at = current_time();
    }

    /// Records reported progress, in hundredths of a percent, clamped into
    /// `0..=100%`.
    pub fn update_progress(&mut self, progress: i64)
        ensures
            *final(self) == old(self).with_progress(clamped_progress(progress), final(self).updated_at),
            final(self).progress_in_range(),
            final(self).updated_at.is_clock_reading(),
    {
        self.progress = if progress < 0 {
            0
        } else if progress > FULL_PROGRESS as i64 {
            FULL_PROGRESS
        } else {
            progress as u32
        };
        self.updated_at = current_time();
    }

    pub fn start_processing(&mut self)
        ensures
            *final(self) == old(self).moved_to(DownloadStatus::Processing, final(self).updated_at),
            final(self).updated_at.is_clock_reading(),
    {
        self.status = DownloadStatus::Processing;
        self.updated_at = current_time();
    }

    /// Marks the download finished with the file it produced.
    pub fn complete(&mut self, file_path: String, file_size: u64)
        ensures
            *final(self) == (Download {
                status: DownloadStatus::Completed,
                progress: FULL_PROGRESS,
                file_path: Some(file_path),
                file_size: Some(file_size),
                completed_at: final(self).completed_at,
                updated_at: final(self).updated_at,
                ..*old(self)
            }),
            final(self).completed_at matches Some(t) && t.is_clock_reading(),
            final(self).updated_at.is_clock_reading(),
            final(self).progress_in_range(),
    {
        self.status = DownloadStatus::Completed;
        self.progress = FULL_PROGRESS;
        self.file_path = Some(file_path);
        self.file_size = Some(file_size);
        self.completed_at = Some(current_time());
        self.updated_at = current_time();
    }

    /// Marks the download failed with the reason.
    pub fn fail(&mut self, error_message: String)
        ensures
            *final(self) == (Download {
                status: DownloadStatus::Failed,
                error_message: Some(error_message),
                updated_at: final(self).updated_at,
                ..*old(self)
            }),
            final(self).updated_at.is_clock_reading(),
    {
        self.status = DownloadStatus::Failed;
        self.error_message = Some(error_message);
        self.updated_at = current_time();
    }

    pub fn cancel(&mut self)
        ensures
            *final(self) == old(self).moved_to(DownloadStatus::Cancelled, final(self).updated_at),
            final(self).updated_at.is_clock_reading(),
    {
        self.status = DownloadStatus::Cancelled;
        self.updated_at = current_time();
    }

    pub fn is_terminal(&self) -> (r: bool)
        ensures
            r == self.spec_is_terminal(),
    {
        match self.status {
            DownloadStatus::Completed | DownloadStatus::Failed | DownloadStatus::Cancelled => true,
            _ => false,
        }
    }
}

/// Completing, failing and cancelling leave a download terminal; the other
/// statuses are not terminal.
pub proof fn finished_statuses_are_terminal()
    ensures
        is_terminal_status(DownloadStatus::Completed),
        is_terminal_status(DownloadStatus::Failed),
        is_terminal_status(DownloadStatus::Cancelled),
        !is_terminal_status(DownloadStatus::Pending),
        !is_terminal_status(DownloadStatus::Fetching),
        !is_terminal_status(DownloadStatus::Downloading),
        !is_terminal_status(DownloadStatus::Processing),
{
}

} // verus!
