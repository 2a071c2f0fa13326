use m3u8_downloader::cli::{Cli, Sources};
use m3u8_downloader::constants::{MAX_PARALLEL_DOWNLOAD, TS_LIST_PATH};
use m3u8_downloader::download::{
    ffmpeg_args, m3u8_source, part_path, resolve_segment, resolve_segment_uris, segment_names,
    segment_action, ts_list_content, DownloadProgress, M3u8Source, SegmentAction,
};
use m3u8_downloader::error::Error;
use m3u8_downloader::m3u8::{finish_parse, select_variant, start_parse, variant_uris, ParseStep};
use m3u8_downloader::opt::Opt;
use m3u8_downloader::playlist::{Segment, Variant};
use m3u8_downloader::util::{hash, to_hex_lower};

const MEDIA: &str = "#EXTM3U\n#EXT-X-TARGETDURATION:10\n#EXTINF:9.009,\nseg0.ts\n#EXTINF:9.009,\nhttp://media.example.com/seg1.ts\n#EXT-X-ENDLIST\n";
const MEDIA_B64: &str = "I0VYVE0zVQojRVhULVgtVEFSR0VURFVSQVRJT046MTAKI0VYVElORjo5LjAwOSwKc2VnMC50cwojRVhUSU5GOjkuMDA5LApodHRwOi8vbWVkaWEuZXhhbXBsZS5jb20vc2VnMS50cwojRVhULVgtRU5ETElTVAo=";
const MASTER: &str = "#EXTM3U\n#EXT-X-STREAM-INF:BANDWIDTH=1280000\nlow/index.m3u8\n#EXT-X-I-FRAME-STREAM-INF:BANDWIDTH=86000,URI=\"iframe.m3u8\"\n#EXT-X-STREAM-INF:BANDWIDTH=2560000\nhttp://other.com/hi/index.m3u8\n";
const BASE: &str = "http://some.com/dir/list.m3u8";

fn segment_uris(step: ParseStep) -> Vec<String> {
    match step {
        ParseStep::Done(pl) => pl.segments.into_iter().map(|s| s.uri).collect(),
        ParseStep::SelectVariant(_) => panic!("expected a media playlist"),
    }
}

fn cli(worker: usize, url: Option<&str>) -> Cli {
    Cli {
        dest: "out.mp4".to_string(),
        worker,
        source: Sources { source: None, url: url.map(|s| s.to_string()) },
    }
}

#[test]
fn parse() {
    // a master playlist: the first playable variant is chosen and its media
    // playlist read
    let step = start_parse("http://some.com/", MASTER.as_bytes()).unwrap();
    let uris = match step {
        ParseStep::SelectVariant(uris) => uris,
        ParseStep::Done(_) => panic!("expected a master playlist"),
    };
    let chosen = select_variant(&uris, 0).unwrap();
    assert_eq!(chosen, "http://some.com/low/index.m3u8");
    let pl = finish_parse(MEDIA.as_bytes()).unwrap();
    assert_eq!(pl.segments.len(), 2);
}

#[test]
fn media_playlist_is_done_at_once() {
    let uris = segment_uris(start_parse(BASE, MEDIA.as_bytes()).unwrap());
    assert_eq!(uris, vec!["seg0.ts".to_string(), "http://media.example.com/seg1.ts".to_string()]);
}

#[test]
fn base64_playlist_is_decoded_first() {
    let uris = segment_uris(start_parse(BASE, MEDIA_B64.as_bytes()).unwrap());
    assert_eq!(uris, vec!["seg0.ts".to_string(), "http://media.example.com/seg1.ts".to_string()]);
    let pl = finish_parse(MEDIA_B64.as_bytes()).unwrap();
    assert_eq!(pl.segments[1].uri, "http://media.example.com/seg1.ts");
}

#[test]
fn master_playlist_offers_playable_variants_resolved() {
    match start_parse(BASE, MASTER.as_bytes()).unwrap() {
        ParseStep::SelectVariant(uris) => assert_eq!(
            uris,
            vec!["http://some.com/dir/low/index.m3u8".to_string(), "http://other.com/hi/index.m3u8".to_string()]
        ),
        ParseStep::Done(_) => panic!("expected a master playlist"),
    }
}

#[test]
fn not_a_playlist_is_refused() {
    match start_parse(BASE, b"hello world") {
        Err(Error::PlaylistParse(text)) => assert!(!text.is_empty()),
        other => panic!("unexpected {:?}", other),
    }
    assert!(matches!(finish_parse(b"hello world"), Err(Error::PlaylistParse(_))));
}

#[test]
fn variant_uris_skip_iframes_and_unresolvable() {
    let variants = vec![
        Variant { uri: "a.m3u8".to_string(), is_i_frame: false },
        Variant { uri: "i.m3u8".to_string(), is_i_frame: true },
        Variant { uri: "http://[bad".to_string(), is_i_frame: false },
        Variant { uri: "b/c.m3u8".to_string(), is_i_frame: false },
    ];
    assert_eq!(
        variant_uris("https://x.org/p/q", &variants),
        vec!["https://x.org/p/a.m3u8".to_string(), "https://x.org/p/b/c.m3u8".to_string()]
    );
    assert!(variant_uris("not a url", &variants).is_empty());
}

#[test]
fn select_out_of_range() {
    let uris = vec!["http://a/1".to_string(), "http://a/2".to_string()];
    assert_eq!(select_variant(&uris, 1).unwrap(), "http://a/2");
    assert!(matches!(select_variant(&uris, 2), Err(Error::SelectOutOfRange)));
    assert!(matches!(select_variant(&Vec::new(), 0), Err(Error::SelectOutOfRange)));
}

#[test]
fn worker_is_capped() {
    let opt = Opt::try_from(cli(20, None)).unwrap();
    assert_eq!(opt.worker, 20);
    assert_eq!(opt.dest, "out.mp4");
    assert!(opt.url.is_none());
    assert_eq!(Opt::try_from(cli(50, None)).unwrap().worker, MAX_PARALLEL_DOWNLOAD);
    assert_eq!(Opt::try_from(cli(500, None)).unwrap().worker, 50);
}

#[test]
fn url_option_is_parsed() {
    let opt = Opt::try_from(cli(1, Some("HTTP://Example.COM"))).unwrap();
    assert_eq!(opt.url.as_deref(), Some("http://example.com/"));
    match Opt::try_from(cli(1, Some("not a url"))) {
        Err(Error::InvalidUrl(s)) => assert_eq!(s, "relative URL without a base"),
        other => panic!("unexpected {:?}", other),
    }
}

#[test]
fn source_file_is_read_and_url_is_only_its_base() {
    let mut opt = Opt::try_from(cli(1, Some("http://a.com/x.m3u8"))).unwrap();
    assert!(matches!(m3u8_source(&opt), M3u8Source::Url(u) if u == "http://a.com/x.m3u8"));
    opt.source = Some("local.m3u8".to_string());
    assert!(matches!(m3u8_source(&opt), M3u8Source::File(p) if p == "local.m3u8"));
    opt.url = None;
    assert!(matches!(m3u8_source(&opt), M3u8Source::File(p) if p == "local.m3u8"));
}

#[test]
fn existing_segment_is_skipped() {
    assert_eq!(segment_action(true), SegmentAction::Skip);
    assert_eq!(segment_action(false), SegmentAction::Download);
}

#[test]
fn segments_resolve_against_base() {
    let base = Some("http://some.com/dir/list.m3u8".to_string());
    assert_eq!(resolve_segment(&base, "seg0.ts").unwrap(), "http://some.com/dir/seg0.ts");
    assert_eq!(resolve_segment(&base, "/root.ts").unwrap(), "http://some.com/root.ts");
    assert_eq!(resolve_segment(&None, "http://cdn.net/a.ts").unwrap(), "http://cdn.net/a.ts");
    assert_eq!(resolve_segment(&base, "http://cdn.net/a.ts").unwrap(), "http://cdn.net/a.ts");
    assert!(matches!(resolve_segment(&None, "seg0.ts"), Err(Error::SegmentNotAbsolute)));
    let bad_base = Some("data:text/plain,x".to_string());
    assert!(matches!(
        resolve_segment(&bad_base, "seg0.ts"),
        Err(Error::InvalidUrl(s)) if s == "relative URL with a cannot-be-a-base base"
    ));
    match Opt::try_from(cli(1, Some("http://exa mple.com/"))) {
        Err(Error::InvalidUrl(s)) => assert_eq!(s, "invalid international domain name"),
        other => panic!("unexpected {:?}", other),
    }
}

#[test]
fn resolve_all_stops_at_first_error() {
    let segs = vec![
        Segment { uri: "http://cdn.net/a.ts".to_string() },
        Segment { uri: "b.ts".to_string() },
    ];
    assert!(matches!(resolve_segment_uris(&segs, &None), Err(Error::SegmentNotAbsolute)));
    let base = Some("http://h.com/x/".to_string());
    assert_eq!(
        resolve_segment_uris(&segs, &base).unwrap(),
        vec!["http://cdn.net/a.ts".to_string(), "http://h.com/x/b.ts".to_string()]
    );
    assert!(resolve_segment_uris(&Vec::new(), &None).unwrap().is_empty());
}

#[test]
fn names_are_last_path_segments() {
    let uris = vec!["http://h.com/x/a.ts".to_string(), "http://h.com/b.ts?x=1".to_string()];
    assert_eq!(segment_names(&uris).unwrap(), vec!["a.ts".to_string(), "b.ts".to_string()]);
    let bad = vec!["http://h.com/a.ts".to_string(), "data:text/plain,x".to_string()];
    assert!(matches!(segment_names(&bad), Err(Error::NoSegmentName(s)) if s == "data:text/plain,x"));
}

#[test]
fn ts_list_has_one_line_per_segment() {
    let names = vec!["a.ts".to_string(), "b.ts".to_string()];
    assert_eq!(ts_list_content(&names), "file a.ts\nfile b.ts\n");
    assert_eq!(ts_list_content(&Vec::new()), "");
}

#[test]
fn hash_is_hex_of_sha256() {
    assert_eq!(hash(b""), "e3b0c44298fc1c149afbf4c8996fb92427ae41e4649b934ca495991b7852b855");
    assert_eq!(hash(b"abc"), "ba7816bf8f01cfea414140de5dae2223b00361a396177a9cb410ff61f20015ad");
    assert_eq!(hash(MEDIA.as_bytes()), hash(MEDIA.as_bytes()));
    assert_ne!(hash(MEDIA.as_bytes()), hash(MASTER.as_bytes()));
    assert_eq!(to_hex_lower(&[0x00, 0x0f, 0xa0, 0xff]), "000fa0ff");
}

#[test]
fn part_path_and_ffmpeg_args() {
    assert_eq!(part_path("/tmp/x/seg0.ts"), "/tmp/x/seg0.ts.part");
    assert_eq!(
        ffmpeg_args("out.mp4"),
        vec!["-y", "-f", "concat", "-i", TS_LIST_PATH, "-bsf:a", "aac_adtstoasc", "-c", "copy", "out.mp4"]
    );
    assert_eq!(TS_LIST_PATH, "ts_list.txt");
}

#[test]
fn progress_is_capped_at_total() {
    assert!(matches!(DownloadProgress::start(None), Err(Error::MissingContentLength)));
    let mut p = DownloadProgress::start(Some(100)).unwrap();
    assert_eq!((p.position(), p.total()), (0, 100));
    p.advance(30);
    assert_eq!(p.position(), 30);
    p.advance(70);
    assert_eq!(p.position(), 100);
    p.advance(5);
    assert_eq!(p.position(), 100);
    let mut q = DownloadProgress::start(Some(u64::MAX)).unwrap();
    q.advance(usize::MAX);
    q.advance(usize::MAX);
    assert!(q.position() <= u64::MAX);
}
