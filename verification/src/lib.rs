//! The logic of a desktop video grabber that drives yt-dlp and ffmpeg:
//! reading yt-dlp's output and metadata, choosing and labelling qualities,
//! building its command lines, and the decisions around installing and
//! locating its helper programs.

pub mod text;
pub mod progress;
pub mod formats;
pub mod json;
pub mod video_info;
pub mod download;
pub mod setup;
pub mod files;
pub mod archive;
