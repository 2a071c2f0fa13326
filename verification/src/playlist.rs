use vstd::prelude::*;

verus! {

/// A variant stream of a master playlist, as far as the downloader reads it.
#[derive(Debug, Clone)]
pub struct Variant {
    pub uri: String,
    pub is_i_frame: bool,
}

impl View for Variant {
    type V = (Seq<char>, bool);

    open spec fn view(&self) -> (Seq<char>, bool) {
        (self.uri@, self.is_i_frame)
    }
}

/// A media segment of a media playlist: its URI, absolute or relative.
#[derive(Debug, Clone)]
pub struct Segment {
    pub uri: String,
}

impl View for Segment {
    type V = Seq<char>;

    open spec fn view(&self) -> Seq<char> {
        self.uri@
    }
}

/// A master playlist: the variant streams to choose from.
#[derive(Debug, Clone)]
pub struct MasterPlaylist {
    pub variants: Vec<Variant>,
}

impl View for MasterPlaylist {
    type V = Seq<(Seq<char>, bool)>;

    open spec fn view(&self) -> Seq<(Seq<char>, bool)> {
        self.variants@.map_values(|v: Variant| v@)
    }
}

/// A media playlist: the segments to download, in order.
#[derive(Debug, Clone)]
pub struct MediaPlaylist {
    pub segments: Vec<Segment>,
}

impl View for MediaPlaylist {
    type V = Seq<Seq<char>>;

    open spec fn view(&self) -> Seq<Seq<char>> {
        self.segments@.map_values(|s: Segment| s@)
    }
}

/// A parsed playlist of either kind.
#[derive(Debug, Clone)]
pub enum Playlist {
    MasterPlaylist(MasterPlaylist),
    MediaPlaylist(MediaPlaylist),
}

/// The mathematical content of a `Playlist`.
pub enum PlaylistModel {
    Master(Seq<(Seq<char>, bool)>),
    Media(Seq<Seq<char>>),
}

impl View for Playlist {
    type V = PlaylistModel;

    open spec fn view(&self) -> PlaylistModel {
        match self {
            Playlist::MasterPlaylist(pl) => PlaylistModel::Master(pl@),
            Playlist::MediaPlaylist(pl) => PlaylistModel::Media(pl@),
        }
    }
}

/// What `m3u8_rs::parse_playlist_res` makes of the bytes: the playlist, or,
/// where it rejects them, the debug text of its error (which depends on the
/// bytes alone).
pub uninterp spec fn spec_parse_playlist(input: Seq<u8>) -> Result<PlaylistModel, Seq<char>>;

/// What `m3u8_rs::parse_media_playlist_res` makes of the bytes: the segment
/// URIs, or, where it rejects them, the debug text of its error.
pub uninterp spec fn spec_parse_media_playlist(input: Seq<u8>) -> Result<Seq<Seq<char>>, Seq<char>>;

/// Calls `m3u8_rs::parse_playlist_res` and keeps, of each variant, its URI
/// and whether it is an I-frame stream, and of each segment its URI.
/// Claimed: the outcome, and on failure the debug text of the parser's
/// error, is `spec_parse_playlist(input)`.
#[verifier::external_body]
pub(crate) fn parse_playlist_res(input: &[u8]) -> (res: Result<Playlist, String>)
    ensures
        res matches Ok(p) ==> (spec_parse_playlist(input@) matches Ok(m) && m == p@),
        res matches Err(e) ==> (spec_parse_playlist(input@) matches Err(t) && t == e@),
{
    match m3u8_rs::parse_playlist_res(input) {
        Ok(m3u8_rs::Playlist::MasterPlaylist(pl)) => Ok(Playlist::MasterPlaylist(MasterPlaylist {
            variants: pl.variants.into_iter().map(|v| Variant { uri: v.uri, is_i_frame: v.is_i_frame }).collect(),
        })),
        Ok(m3u8_rs::Playlist::MediaPlaylist(pl)) => Ok(Playlist::MediaPlaylist(MediaPlaylist {
            segments: pl.segments.into_iter().map(|s| Segment { uri: s.uri }).collect(),
        })),
        Err(e) => Err(format!("{:?}", e)),
    }
}

/// Calls `m3u8_rs::parse_media_playlist_res` and keeps the URI of each
/// segment. Claimed: the outcome, and on failure the debug text of the
/// parser's error, is `spec_parse_media_playlist(input)`.
#[verifier::external_body]
pub(crate) fn parse_media_playlist_res(input: &[u8]) -> (res: Result<MediaPlaylist, String>)
    ensures
        res matches Ok(p) ==> (spec_parse_media_playlist(input@) matches Ok(m) && m == p@),
        res matches Err(e) ==> (spec_parse_media_playlist(input@) matches Err(t) && t == e@),
{
    match m3u8_rs::parse_media_playlist_res(input) {
        Ok(pl) => Ok(MediaPlaylist { segments: pl.segments.into_iter().map(|s| Segment { uri: s.uri }).collect() }),
        Err(e) => Err(format!("{:?}", e)),
    }
}

} // verus!
