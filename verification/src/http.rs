//! Request and response bodies of the download endpoints.

use vstd::prelude::*;

use crate::video_info::{format_duration, quality_label, VideoInfo, VideoQuality};

verus! {

pub struct VideoInfoRequest {
    pub url: String,
}

pub struct CreateDownloadRequest {
    pub url: String,
    pub quality: VideoQuality,
}

pub struct VideoInfoResponse {
    pub video_id: String,
    pub title: String,
    pub description: Option<String>,
    pub channel: String,
    pub channel_id: String,
    pub duration: String,
    pub duration_seconds: u64,
    pub view_count: Option<u64>,
    pub like_count: Option<u64>,
    pub thumbnail_url: Option<String>,
    pub available_qualities: Vec<String>,
}

impl VideoInfoResponse {
    /// The public view of a video summary: its duration spelled out and the
    /// labels of its formats in order.
    pub fn from(info: VideoInfo) -> (r: Self)
        ensures
            r.video_id == info.video_id,
            r.title == info.title,
            r.description == info.description,
            r.channel == info.channel,
            r.channel_id == info.channel_id,
            r.duration@ == format_duration(info.duration_seconds as nat),
            r.duration_seconds == info.duration_seconds,
            r.view_count == info.view_count,
            r.like_count == info.like_count,
            r.thumbnail_url == info.thumbnail_url,
            r.available_qualities@.len() == info.available_formats@.len(),
            forall|i: int|
                0 <= i < info.available_formats@.len() ==> (#[trigger] r.available_qualities@[i])@
                    == quality_label(info.available_formats@[i].quality),
    {
        let duration = info.duration_formatted();
        let mut available_qualities: Vec<String> = Vec::new();
        let mut k: usize = 0;
        while k < info.available_formats.len()
            invariant
                k <= info.available_formats@.len(),
                available_qualities@.len() == k,
                forall|i: int|
                    0 <= i < k ==> (#[trigger] available_qualities@[i])@ == quality_label(
                        info.available_formats@[i].quality,
                    ),
            decreases info.available_formats@.len() - k,
        {
            available_qualities.push(info.available_formats[k].quality.to_string());
            k = k + 1;
        }
        VideoInfoResponse {
            video_id: info.video_id,
            title: info.title,
            description: info.description,
            channel: info.channel,
            channel_id: info.channel_id,
            duration,
            duration_seconds: info.duration_seconds,
            view_count: info.view_count,
            like_count: info.like_count,
            thumbnail_url: info.thumbnail_url,
            available_qualities,
        }
    }
}

} // verus!
