//! Verified core of a video download service: pagination, API envelopes,
//! error classification, the download state machine, video-info extraction
//! and the in-memory download store.

pub mod pagination;
pub mod text;
pub mod responses;
pub mod errors;
pub mod video_info;
pub mod get_video_info;
pub mod clock;
pub mod ids;
pub mod download;
pub mod repository;
pub mod use_cases;
pub mod download_worker;
pub mod s3;
pub mod ffmpeg;
pub mod config;
pub mod http;
