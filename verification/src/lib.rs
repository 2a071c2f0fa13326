//! Verified core of an m3u8 (HLS) downloader: playlist handling, URL
//! resolution of segments, the download list, the cache directory name and
//! the download progress, with the network, the terminal and ffmpeg left to
//! the caller.

pub mod error;
pub mod url_ops;
pub mod base64_ops;
pub mod playlist;
pub mod m3u8;
pub mod util;
pub mod cli;
pub mod constants;
pub mod opt;
pub mod download;
