use vstd::prelude::*;

verus! {

/// The most segments downloaded at the same time, whatever is asked for.
pub const MAX_PARALLEL_DOWNLOAD: usize = 50;

/// The name of the list of downloaded segments, in the cache directory, that
/// ffmpeg's concat demuxer reads.
pub const TS_LIST_PATH: &'static str = "ts_list.txt";

} // verus!
