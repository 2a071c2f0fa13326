use vstd::prelude::*;

use crate::constants::TS_LIST_PATH;
use crate::error::Error;
use crate::opt::Opt;
use crate::playlist::Segment;
use crate::url_ops::{
    spec_url_join, spec_url_join_ok, spec_url_last_segment, spec_url_parse, spec_url_parse_ok, url_join,
    url_last_segment, url_parse,
};

verus! {

/// Where the playlist is read from.
#[derive(Debug, Clone)]
pub enum M3u8Source {
    /// Fetched from this URL.
    Url(String),
    /// Read from this file.
    File(String),
}

/// The playlist's origin: the source file where one is given (a URL given
/// beside it only serves as the base of relative segment URIs), else the URL.
pub fn m3u8_source(opt: &Opt) -> (res: M3u8Source)
    requires
        opt.url is Some || opt.source is Some,
    ensures
        opt.source matches Some(p) ==> (res matches M3u8Source::File(x) && x@ == p@),
        opt.source is None ==> (res matches M3u8Source::Url(x) && x@ == opt.url->0@),
{
    match &opt.source {
        Some(p) => M3u8Source::File(p.clone()),
        None => match &opt.url {
            Some(u) => M3u8Source::Url(u.clone()),
            None => M3u8Source::Url(String::new()),
        },
    }
}

/// What to do about a segment before fetching it.
#[derive(Debug, Clone, Copy, PartialEq, Eq, Structural)]
pub enum SegmentAction {
    /// Its file is already complete from an earlier run: leave it.
    Skip,
    /// Fetch it (into its `.part` file, renamed when complete).
    Download,
}

/// Resuming an interrupted run: a segment whose file already exists is
/// skipped, any other is downloaded.
pub fn segment_action(file_exists: bool) -> (res: SegmentAction)
    ensures
        file_exists ==> res == SegmentAction::Skip,
        !file_exists ==> res == SegmentAction::Download,
{
    if file_exists {
        SegmentAction::Skip
    } else {
        SegmentAction::Download
    }
}

/// The absolute URL of a segment URI: the URI itself where it parses as an
/// absolute URL, else the URI joined to the base, where there is one.
pub open spec fn spec_resolve_segment(base: Option<Seq<char>>, uri: Seq<char>) -> Option<Seq<char>> {
    match spec_url_parse_ok(uri) {
        Some(u) => Some(u),
        None => match base {
            Some(b) => spec_url_join_ok(b, uri),
            None => None,
        },
    }
}

/// An absolute segment URI resolves to the same URL whether or not a base URL
/// is given; only relative URIs need one.
pub proof fn lemma_absolute_segment_ignores_base(base: Seq<char>, uri: Seq<char>)
    requires
        spec_url_parse_ok(uri) is Some,
    ensures
        spec_resolve_segment(Some(base), uri) == spec_resolve_segment(None, uri),
        spec_resolve_segment(None, uri) == spec_url_parse_ok(uri),
{
}

/// A segment URI that is not an absolute URL resolves, against a base, to
/// exactly the single join of the URI to that base (no more, no less).
pub proof fn lemma_relative_segment_joined_once(base: Seq<char>, uri: Seq<char>)
    requires
        spec_url_parse(uri) is Err,
    ensures
        spec_resolve_segment(Some(base), uri) == (match spec_url_join(base, uri) {
            Ok(u) => Some(u),
            Err(_) => None,
        }),
{
}

/// An absolute segment URI resolves to the URL it parses as, with or without
/// a base.
pub proof fn lemma_absolute_segment_as_parsed(base: Option<Seq<char>>, uri: Seq<char>, u: Seq<char>)
    requires
        spec_url_parse(uri) matches Ok(p) && p == u,
    ensures
        spec_resolve_segment(base, uri) == Some(u),
{
}

/// Without a base URL, exactly the URIs that parse as absolute URLs resolve.
pub proof fn lemma_no_base_needs_absolute(uri: Seq<char>)
    ensures
        spec_resolve_segment(None, uri) is Some <==> spec_url_parse_ok(uri) is Some,
{
}

/// The error reported for a segment URI that does not resolve: without a base
/// it is not absolute; with one, the URL parser's reason why the join failed.
pub open spec fn spec_resolve_error(base: Option<Seq<char>>, uri: Seq<char>, e: Error) -> bool {
    match base {
        None => e is SegmentNotAbsolute,
        Some(b) => e matches Error::InvalidUrl(s) && spec_url_join(b, uri) matches Err(t) && s@
            == t,
    }
}

/// Resolves one segment URI against the optional base URL.
pub fn resolve_segment(base: &Option<String>, uri: &str) -> (res: Result<String, Error>)
    ensures
        spec_resolve_segment(base.deep_view(), uri@) matches Some(u) ==> (res matches Ok(x) && x@
            == u),
        spec_resolve_segment(base.deep_view(), uri@) is None ==> (res matches Err(e)
            && spec_resolve_error(base.deep_view(), uri@, e)),
        // an absolute URI is taken as it parses
        spec_url_parse(uri@) matches Ok(u) ==> (res matches Ok(x) && x@ == u),
        // a relative URI is joined to the base exactly once
        (spec_url_parse(uri@) is Err && base.deep_view() is Some && spec_url_join(
            base.deep_view()->0,
            uri@,
        ) is Ok) ==> (res matches Ok(x) && x@ == spec_url_join(base.deep_view()->0, uri@)->Ok_0),
{
    match url_parse(uri) {
        Ok(u) => Ok(u),
        Err(_) => match base {
            None => Err(Error::SegmentNotAbsolute),
            Some(b) => match url_join(b.as_str(), uri) {
                Ok(u) => Ok(u),
                Err(reason) => Err(Error::InvalidUrl(reason)),
            },
        },
    }
}

/// Resolves the URIs of all segments, in order; the first segment that does
/// not resolve stops it with its error.
pub fn resolve_segment_uris(segments: &Vec<Segment>, base: &Option<String>) -> (res: Result<
    Vec<String>,
    Error,
>)
    ensures
        res is Ok <==> forall|i: int|
            0 <= i < segments@.len() ==> #[trigger] spec_resolve_segment(
                base.deep_view(),
                segments@[i]@,
            ) is Some,
        res matches Ok(v) ==> {
            &&& v@.len() == segments@.len()
            &&& forall|i: int|
                0 <= i < segments@.len() ==> Some(#[trigger] v@[i]@) == spec_resolve_segment(
                    base.deep_view(),
                    segments@[i]@,
                )
        },
        res matches Err(e) ==> exists|i: int|
            0 <= i < segments@.len() && #[trigger] spec_resolve_segment(
                base.deep_view(),
                segments@[i]@,
            ) is None && spec_resolve_error(base.deep_view(), segments@[i]@, e) && forall|j: int|
                0 <= j < i ==> #[trigger] spec_resolve_segment(base.deep_view(), segments@[j]@)
                    is Some,
{
    let mut out: Vec<String> = Vec::new();
    let mut i: usize = 0;
    while i < segments.len()
        invariant
            i <= segments@.len(),
            out@.len() == i,
            forall|j: int|
                0 <= j < i ==> Some(#[trigger] out@[j]@) == spec_resolve_segment(
                    base.deep_view(),
                    segments@[j]@,
                ),
        decreases segments.len() - i,
    {
        match resolve_segment(base, segments[i].uri.as_str()) {
            Ok(u) => out.push(u),
            Err(e) => {
                assert forall|j: int| 0 <= j < i implies #[trigger] spec_resolve_segment(
                    base.deep_view(),
                    segments@[j]@,
                ) is Some by {
                    assert(Some(out@[j]@) == spec_resolve_segment(base.deep_view(), segments@[j]@));
                }
                assert(segments@[i as int]@ == segments[i as int].uri@);
                assert(spec_resolve_segment(base.deep_view(), segments@[i as int]@) is None);
                return Err(e);
            },
        }
        i = i + 1;
    }
    assert forall|j: int| 0 <= j < segments@.len() implies #[trigger] spec_resolve_segment(
        base.deep_view(),
        segments@[j]@,
    ) is Some by {
        assert(Some(out@[j]@) == spec_resolve_segment(base.deep_view(), segments@[j]@));
    }
    Ok(out)
}

/// The file name of each segment: the last path segment of its URL, in
/// order; the first URL without one stops it with its error.
pub fn segment_names(uris: &Vec<String>) -> (res: Result<Vec<String>, Error>)
    ensures
        res is Ok <==> forall|i: int|
            0 <= i < uris@.len() ==> #[trigger] spec_url_last_segment(uris@[i]@) is Some,
        res matches Ok(v) ==> {
            &&& v@.len() == uris@.len()
            &&& forall|i: int|
                0 <= i < uris@.len() ==> Some(#[trigger] v@[i]@) == spec_url_last_segment(
                    uris@[i]@,
                )
        },
        res matches Err(e) ==> exists|i: int|
            0 <= i < uris@.len() && #[trigger] spec_url_last_segment(uris@[i]@) is None && (e matches Error::NoSegmentName(s) && s@ == uris@[i]@) && forall|j: int|
                0 <= j < i ==> #[trigger] spec_url_last_segment(uris@[j]@) is Some,
{
    let mut out: Vec<String> = Vec::new();
    let mut i: usize = 0;
    while i < uris.len()
        invariant
            i <= uris@.len(),
            out@.len() == i,
            forall|j: int|
                0 <= j < i ==> Some(#[trigger] out@[j]@) == spec_url_last_segment(uris@[j]@),
        decreases uris.len() - i,
    {
        match url_last_segment(uris[i].as_str()) {
            Some(name) => out.push(name),
            None => {
                assert forall|j: int| 0 <= j < i implies #[trigger] spec_url_last_segment(
                    uris@[j]@,
                ) is Some by {
                    assert(Some(out@[j]@) == spec_url_last_segment(uris@[j]@));
                }
                assert(spec_url_last_segment(uris@[i as int]@) is None);
                return Err(Error::NoSegmentName(uris[i].clone()));
            },
        }
        i = i + 1;
    }
    assert forall|j: int| 0 <= j < uris@.len() implies #[trigger] spec_url_last_segment(
        uris@[j]@,
    ) is Some by {
        assert(Some(out@[j]@) == spec_url_last_segment(uris@[j]@));
    }
    Ok(out)
}

/// One line of the download list: `file <name>` and a line break.
pub open spec fn spec_ts_line(name: Seq<char>) -> Seq<char> {
    "file "@ + name + seq!['\n']
}

/// The download list that ffmpeg's concat demuxer reads: one line per
/// segment file, in order.
pub open spec fn spec_ts_list(names: Seq<Seq<char>>) -> Seq<char>
    decreases names.len(),
{
    if names.len() == 0 {
        Seq::empty()
    } else {
        spec_ts_list(names.drop_last()) + spec_ts_line(names.last())
    }
}

/// Writes the download list of the segment files.
pub fn ts_list_content(names: &Vec<String>) -> (res: String)
    ensures
        res@ == spec_ts_list(names.deep_view()),
{
    let ghost ns = names.deep_view();
    let mut out = String::new();
    let mut i: usize = 0;
    while i < names.len()
        invariant
            i <= names@.len(),
            ns == names.deep_view(),
            out@ == spec_ts_list(ns.take(i as int)),
        decreases names.len() - i,
    {
        assert(ns.take(i + 1).drop_last() =~= ns.take(i as int));
        assert(ns.take(i + 1).last() == names@[i as int]@);
        let ghost before = out@;
        out.append("file ");
        out.append(names[i].as_str());
        out.push('\n');
        assert(out@ =~= before + spec_ts_line(names@[i as int]@));
        i = i + 1;
    }
    assert(ns.take(names@.len() as int) =~= ns);
    out
}

/// The download list of two runs of segments is the list of the first
/// followed by the list of the second: one line per segment, nothing else.
pub proof fn lemma_ts_list_append(a: Seq<Seq<char>>, b: Seq<Seq<char>>)
    ensures
        spec_ts_list(a + b) == spec_ts_list(a) + spec_ts_list(b),
    decreases b.len(),
{
    if b.len() == 0 {
        assert(a + b =~= a);
        assert(spec_ts_list(b) =~= Seq::<char>::empty());
        assert(spec_ts_list(a) + spec_ts_list(b) =~= spec_ts_list(a));
    } else {
        assert((a + b).drop_last() =~= a + b.drop_last());
        assert((a + b).last() == b.last());
        lemma_ts_list_append(a, b.drop_last());
        assert(spec_ts_list(a + b) =~= spec_ts_list(a) + spec_ts_list(b));
    }
}

/// The download list of a single segment file is exactly the line
/// `file <name>` followed by a line break; with the append law this fixes the
/// list of any number of segments.
pub proof fn lemma_ts_list_single(name: Seq<char>)
    ensures
        spec_ts_list(seq![name]) == seq!['f', 'i', 'l', 'e', ' '] + name + seq!['\n'],
{
    reveal_strlit("file ");
    assert("file "@ =~= seq!['f', 'i', 'l', 'e', ' ']);
    let empty = Seq::<Seq<char>>::empty();
    assert(seq![name].drop_last() =~= empty);
    assert(spec_ts_list(empty) == Seq::<char>::empty());
    assert(spec_ts_list(seq![name].drop_last()) == Seq::<char>::empty());
    assert(seq![name].last() == name);
    assert(spec_ts_list(seq![name]) =~= seq!['f', 'i', 'l', 'e', ' '] + name + seq!['\n']);
}

/// Adding a segment file at the end adds exactly its line at the end of the
/// list.
pub proof fn lemma_ts_list_push(names: Seq<Seq<char>>, name: Seq<char>)
    ensures
        spec_ts_list(names.push(name)) == spec_ts_list(names) + seq!['f', 'i', 'l', 'e', ' ']
            + name + seq!['\n'],
{
    lemma_ts_list_append(names, seq![name]);
    lemma_ts_list_single(name);
    assert(names.push(name) =~= names + seq![name]);
    assert(spec_ts_list(names) + seq!['f', 'i', 'l', 'e', ' '] + name + seq!['\n'] =~= spec_ts_list(
        names,
    ) + (seq!['f', 'i', 'l', 'e', ' '] + name + seq!['\n']));
}

/// Where a segment is written while it downloads: its final path with
/// `.part` appended.
pub fn part_path(dest: &str) -> (res: String)
    ensures
        res@ == dest@ + ".part"@,
{
    let mut p = dest.to_owned();
    p.append(".part");
    p
}

/// The arguments handed to ffmpeg to concatenate the downloaded segments
/// listed in `TS_LIST_PATH` into `dest`, copying the streams.
pub fn ffmpeg_args(dest: &str) -> (res: Vec<String>)
    ensures
        res.deep_view() == seq![
            "-y"@,
            "-f"@,
            "concat"@,
            "-i"@,
            TS_LIST_PATH@,
            "-bsf:a"@,
            "aac_adtstoasc"@,
            "-c"@,
            "copy"@,
            dest@,
        ],
{
    let mut args: Vec<String> = Vec::new();
    args.push("-y".to_owned());
    args.push("-f".to_owned());
    args.push("concat".to_owned());
    args.push("-i".to_owned());
    args.push(TS_LIST_PATH.to_owned());
    args.push("-bsf:a".to_owned());
    args.push("aac_adtstoasc".to_owned());
    args.push("-c".to_owned());
    args.push("copy".to_owned());
    args.push(dest.to_owned());
    assert(args.deep_view() =~= seq![
        "-y"@,
        "-f"@,
        "concat"@,
        "-i"@,
        TS_LIST_PATH@,
        "-bsf:a"@,
        "aac_adtstoasc"@,
        "-c"@,
        "copy"@,
        dest@,
    ]);
    args
}

/// The progress of one segment's download: bytes received so far, never
/// more than the announced length.
pub struct DownloadProgress {
    downloaded: u64,
    total: u64,
}

impl View for DownloadProgress {
    type V = (u64, u64);

    closed spec fn view(&self) -> (u64, u64) {
        (self.downloaded, self.total)
    }
}

impl DownloadProgress {
    #[verifier::type_invariant]
    spec fn within_total(self) -> bool {
        self.downloaded <= self.total
    }

    /// Starts a download whose length the server announced; without a
    /// length there is nothing to measure progress against.
    pub fn start(content_length: Option<u64>) -> (res: Result<DownloadProgress, Error>)
        ensures
            content_length matches Some(t) ==> (res matches Ok(p) && p@ == (0u64, t)),
            content_length is None ==> (res matches Err(Error::MissingContentLength)),
    {
        match content_length {
            Some(total) => Ok(DownloadProgress { downloaded: 0, total }),
            None => Err(Error::MissingContentLength),
        }
    }

    /// Accounts for a received chunk: the position moves by its length,
    /// capped at the announced total.
    pub fn advance(&mut self, chunk_len: usize)
        ensures
            final(self)@.1 == old(self)@.1,
            final(self)@.0 == (if old(self)@.0 + chunk_len < old(self)@.1 {
                (old(self)@.0 + chunk_len) as u64
            } else {
                old(self)@.1
            }),
            // the position never goes back and never passes the total
            old(self)@.0 <= final(self)@.0 <= final(self)@.1,
    {
        proof {
            use_type_invariant(&*self);
        }
        let room = self.total - self.downloaded;
        let len = chunk_len as u64;
        if len >= room {
            self.downloaded = self.total;
        } else {
            self.downloaded = self.downloaded + len;
        }
    }

    /// Bytes received so far.
    pub fn position(&self) -> (res: u64)
        ensures
            res == self@.0,
            res <= self@.1,
    {
        proof {
            use_type_invariant(self);
        }
        self.downloaded
    }

    /// The announced length.
    pub fn total(&self) -> (res: u64)
        ensures
            res == self@.1,
    {
        self.total
    }
}

} // verus!
