//! Video qualities, formats and the summary of a video.

use vstd::prelude::*;

use crate::text::{decimal, decimal_pad2, push_char, push_decimal, push_decimal_pad2};

verus! {

#[derive(Clone, Copy, Debug, PartialEq, Eq, Structural)]
pub enum VideoQuality {
    Best,
    Quality2160p,
    Quality1440p,
    Quality1080p,
    Quality720p,
    Quality480p,
    Quality360p,
    AudioOnly,
}

/// The label of a quality, as shown to users.
pub open spec fn quality_label(q: VideoQuality) -> Seq<char> {
    match q {
        VideoQuality::Best => "best"@,
        VideoQuality::Quality2160p => "2160p"@,
        VideoQuality::Quality1440p => "1440p"@,
        VideoQuality::Quality1080p => "1080p"@,
        VideoQuality::Quality720p => "720p"@,
        VideoQuality::Quality480p => "480p"@,
        VideoQuality::Quality360p => "360p"@,
        VideoQuality::AudioOnly => "audio"@,
    }
}

/// Position of a quality in listings: best first, audio last.
pub open spec fn quality_rank(q: VideoQuality) -> u8 {
    match q {
        VideoQuality::Best => 0,
        VideoQuality::Quality2160p => 1,
        VideoQuality::Quality1440p => 2,
        VideoQuality::Quality1080p => 3,
        VideoQuality::Quality720p => 4,
        VideoQuality::Quality480p => 5,
        VideoQuality::Quality360p => 6,
        VideoQuality::AudioOnly => 7,
    }
}

impl Default for VideoQuality {
    fn default() -> (r: Self)
        ensures
            r == VideoQuality::Best,
    {
        VideoQuality::Best
    }
}

impl VideoQuality {
    /// The quality's label.
    pub fn to_string(&self) -> (r: String)
        ensures
            r@ == quality_label(*self),
    {
        let s = match self {
            VideoQuality::Best => "best",
            VideoQuality::Quality2160p => "2160p",
            VideoQuality::Quality1440p => "1440p",
            VideoQuality::Quality1080p => "1080p",
            VideoQuality::Quality720p => "720p",
            VideoQuality::Quality480p => "480p",
            VideoQuality::Quality360p => "360p",
            VideoQuality::AudioOnly => "audio",
        };
        String::from_str(s)
    }

    /// The quality's position in listings.
    pub fn rank(&self) -> (r: u8)
        ensures
            r == quality_rank(*self),
    {
        match self {
            VideoQuality::Best => 0,
            VideoQuality::Quality2160p => 1,
            VideoQuality::Quality1440p => 2,
            VideoQuality::Quality1080p => 3,
            VideoQuality::Quality720p => 4,
            VideoQuality::Quality480p => 5,
            VideoQuality::Quality360p => 6,
            VideoQuality::AudioOnly => 7,
        }
    }
}

/// One downloadable rendition of a video.
pub struct VideoFormat {
    pub quality: VideoQuality,
    pub format_id: String,
    pub extension: String,
    pub file_size: Option<u64>,
    pub has_video: bool,
    pub has_audio: bool,
}

impl Clone for VideoFormat {
    fn clone(&self) -> (r: Self)
        ensures
            r == *self,
    {
        VideoFormat {
            quality: self.quality,
            format_id: self.format_id.clone(),
            extension: self.extension.clone(),
            file_size: self.file_size,
            has_video: self.has_video,
            has_audio: self.has_audio,
        }
    }
}

/// Summary of a video. `upload_date` is in seconds since the Unix epoch.
pub struct VideoInfo {
    pub video_id: String,
    pub title: String,
    pub description: Option<String>,
    pub channel: String,
    pub channel_id: String,
    pub duration_seconds: u64,
    pub view_count: Option<u64>,
    pub like_count: Option<u64>,
    pub thumbnail_url: Option<String>,
    pub upload_date: Option<i64>,
    pub available_formats: Vec<VideoFormat>,
}

/// `H:MM:SS` when the duration reaches an hour, `M:SS` otherwise.
pub open spec fn format_duration(total: nat) -> Seq<char> {
    let hours = total / 3600;
    let minutes = (total % 3600) / 60;
    let seconds = total % 60;
    if hours > 0 {
        decimal(hours) + seq![':'] + decimal_pad2(minutes) + seq![':'] + decimal_pad2(seconds)
    } else {
        decimal(minutes) + seq![':'] + decimal_pad2(seconds)
    }
}

impl VideoInfo {
    pub fn duration_formatted(&self) -> (r: String)
        ensures
            r@ == format_duration(self.duration_seconds as nat),
    {
        let total = self.duration_seconds;
        let hours = total / 3600;
        let minutes = (total % 3600) / 60;
        let seconds = total % 60;
        let mut r = String::new();
        if hours > 0 {
            push_decimal(&mut r, hours);
            push_char(&mut r, ':');
            push_decimal_pad2(&mut r, minutes);
        } else {
            push_decimal(&mut r, minutes);
        }
        push_char(&mut r, ':');
        push_decimal_pad2(&mut r, seconds);
        proof {
            assert(r@ =~= format_duration(total as nat));
        }
        r
    }
}

} // verus!
