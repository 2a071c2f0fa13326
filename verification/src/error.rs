use vstd::prelude::*;

verus! {

/// Everything that can go wrong in the library's logic.
#[derive(Debug, Clone)]
pub enum Error {
    /// A URL (given on the command line, or a segment URI relative to a base)
    /// could not be parsed or resolved; holds the URL parser's reason.
    InvalidUrl(String),
    /// The playlist could not be parsed; holds the parser's own description.
    PlaylistParse(String),
    /// The chosen variant index is not one of the offered variants.
    SelectOutOfRange,
    /// A segment URI is relative and no base URL was given.
    SegmentNotAbsolute,
    /// A segment URL has no last path segment to name its file after.
    NoSegmentName(String),
    /// The server did not announce the length of a segment.
    MissingContentLength,
}

} // verus!
