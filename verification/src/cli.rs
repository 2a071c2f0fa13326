use vstd::prelude::*;

verus! {

/// The command line as given: where to write the video, how many segments
/// to fetch at once, and where the playlist comes from.
#[derive(Debug, Clone)]
pub struct Cli {
    /// dest path
    pub dest: String,
    /// parallel worker num
    pub worker: usize,
    pub source: Sources,
}

/// Where the playlist comes from: at least one of a file and a URL. A
/// playlist read from a file whose segment URIs are not absolute needs the
/// URL too, as their base.
#[derive(Debug, Clone)]
pub struct Sources {
    /// source mode used for from file
    pub source: Option<String>,
    /// url mode used for from url
    pub url: Option<String>,
}

} // verus!
