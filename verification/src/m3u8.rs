use vstd::prelude::*;

use crate::base64_ops::{decode_or_keep, spec_playlist_bytes};
use crate::error::Error;
use crate::playlist::{
    parse_media_playlist_res, parse_playlist_res, spec_parse_media_playlist,
    spec_parse_playlist, MediaPlaylist, Playlist, PlaylistModel, Variant,
};
use crate::url_ops::{spec_url_join_ok, url_join};

verus! {

/// The URIs offered for a choice among the variants of a master playlist:
/// each variant that is not an I-frame stream and whose URI resolves against
/// `base`, resolved, in the playlist's order.
pub open spec fn spec_variant_uris(base: Seq<char>, variants: Seq<(Seq<char>, bool)>) -> Seq<Seq<char>>
    decreases variants.len(),
{
    if variants.len() == 0 {
        Seq::empty()
    } else {
        let prev = spec_variant_uris(base, variants.drop_last());
        let v = variants.last();
        if !v.1 && spec_url_join_ok(base, v.0) is Some {
            prev.push(spec_url_join_ok(base, v.0).unwrap())
        } else {
            prev
        }
    }
}

/// Every URI offered for the choice is the resolution of a variant that is
/// not an I-frame stream, and no more URIs are offered than there are
/// variants.
pub proof fn lemma_offered_uris_come_from_playable_variants(
    base: Seq<char>,
    variants: Seq<(Seq<char>, bool)>,
)
    ensures
        spec_variant_uris(base, variants).len() <= variants.len(),
        forall|k: int|
            #![trigger spec_variant_uris(base, variants)[k]]
            0 <= k < spec_variant_uris(base, variants).len() ==> exists|i: int|
                0 <= i < variants.len() && !(#[trigger] variants[i]).1 && spec_url_join_ok(
                    base,
                    variants[i].0,
                ) == Some(spec_variant_uris(base, variants)[k]),
    decreases variants.len(),
{
    if variants.len() > 0 {
        let prev_vs = variants.drop_last();
        lemma_offered_uris_come_from_playable_variants(base, prev_vs);
        let prev = spec_variant_uris(base, prev_vs);
        let whole = spec_variant_uris(base, variants);
        assert forall|k: int| #![trigger whole[k]] 0 <= k < whole.len() implies exists|i: int|
            0 <= i < variants.len() && !(#[trigger] variants[i]).1 && spec_url_join_ok(
                base,
                variants[i].0,
            ) == Some(whole[k]) by {
            if k < prev.len() {
                assert(whole[k] == prev[k]);
                let i = choose|i: int|
                    0 <= i < prev_vs.len() && !(#[trigger] prev_vs[i]).1 && spec_url_join_ok(
                        base,
                        prev_vs[i].0,
                    ) == Some(prev[k]);
                assert(variants[i] == prev_vs[i]);
            } else {
                let i = variants.len() - 1;
                assert(variants[i] == variants.last());
            }
        }
    }
}

/// A master playlist whose variants are all playable and all resolve offers
/// every one of them, in order.
pub proof fn lemma_all_playable_variants_offered(base: Seq<char>, variants: Seq<(Seq<char>, bool)>)
    requires
        forall|i: int|
            0 <= i < variants.len() ==> !(#[trigger] variants[i]).1 && spec_url_join_ok(
                base,
                variants[i].0,
            ) is Some,
    ensures
        spec_variant_uris(base, variants).len() == variants.len(),
        forall|i: int|
            0 <= i < variants.len() ==> Some(#[trigger] spec_variant_uris(base, variants)[i])
                == spec_url_join_ok(base, variants[i].0),
    decreases variants.len(),
{
    if variants.len() > 0 {
        let prev_vs = variants.drop_last();
        assert forall|i: int| 0 <= i < prev_vs.len() implies !(#[trigger] prev_vs[i]).1
            && spec_url_join_ok(base, prev_vs[i].0) is Some by {
            assert(prev_vs[i] == variants[i]);
        }
        lemma_all_playable_variants_offered(base, prev_vs);
        let whole = spec_variant_uris(base, variants);
        let last = variants.len() - 1;
        assert(variants[last] == variants.last());
        assert forall|i: int| 0 <= i < variants.len() implies Some(#[trigger] whole[i])
            == spec_url_join_ok(base, variants[i].0) by {
            if i < last {
                assert(prev_vs[i] == variants[i]);
            }
        }
    }
}

/// The URIs offered for one variant: its resolution, where it is not an
/// I-frame stream and resolves; nothing otherwise.
pub proof fn lemma_variant_uris_single(base: Seq<char>, v: (Seq<char>, bool))
    ensures
        !v.1 && spec_url_join_ok(base, v.0) is Some ==> spec_variant_uris(base, seq![v]) == seq![
            spec_url_join_ok(base, v.0)->0,
        ],
        (v.1 || spec_url_join_ok(base, v.0) is None) ==> spec_variant_uris(base, seq![v])
            == Seq::<Seq<char>>::empty(),
{
    let empty = Seq::<(Seq<char>, bool)>::empty();
    assert(seq![v].drop_last() =~= empty);
    assert(seq![v].last() == v);
    assert(spec_variant_uris(base, empty) == Seq::<Seq<char>>::empty());
    assert(spec_variant_uris(base, seq![v].drop_last()) == Seq::<Seq<char>>::empty());
    if !v.1 && spec_url_join_ok(base, v.0) is Some {
        assert(Seq::<Seq<char>>::empty().push(spec_url_join_ok(base, v.0)->0) =~= seq![
            spec_url_join_ok(base, v.0)->0,
        ]);
    }
}

/// The URIs offered for two runs of variants are those offered for the first
/// run followed by those offered for the second: each variant is judged on
/// its own, in order, whatever comes before or after it.
pub proof fn lemma_variant_uris_append(
    base: Seq<char>,
    a: Seq<(Seq<char>, bool)>,
    b: Seq<(Seq<char>, bool)>,
)
    ensures
        spec_variant_uris(base, a + b) == spec_variant_uris(base, a) + spec_variant_uris(base, b),
    decreases b.len(),
{
    if b.len() == 0 {
        assert(a + b =~= a);
        assert(spec_variant_uris(base, a) + spec_variant_uris(base, b) =~= spec_variant_uris(
            base,
            a,
        ));
    } else {
        assert((a + b).drop_last() =~= a + b.drop_last());
        assert((a + b).last() == b.last());
        lemma_variant_uris_append(base, a, b.drop_last());
        assert(spec_variant_uris(base, a + b) =~= spec_variant_uris(base, a) + spec_variant_uris(
            base,
            b,
        ));
    }
}

/// An I-frame stream added after any variants changes nothing that is
/// offered; a playable variant that resolves adds exactly its resolution at
/// the end.
pub proof fn lemma_variant_uris_push(
    base: Seq<char>,
    variants: Seq<(Seq<char>, bool)>,
    v: (Seq<char>, bool),
)
    ensures
        v.1 ==> spec_variant_uris(base, variants.push(v)) == spec_variant_uris(base, variants),
        !v.1 && spec_url_join_ok(base, v.0) is Some ==> spec_variant_uris(base, variants.push(v))
            == spec_variant_uris(base, variants).push(spec_url_join_ok(base, v.0)->0),
{
    assert(variants.push(v) =~= variants + seq![v]);
    lemma_variant_uris_append(base, variants, seq![v]);
    lemma_variant_uris_single(base, v);
    assert(spec_variant_uris(base, variants) + Seq::<Seq<char>>::empty() =~= spec_variant_uris(
        base,
        variants,
    ));
    if !v.1 && spec_url_join_ok(base, v.0) is Some {
        assert(spec_variant_uris(base, variants) + seq![spec_url_join_ok(base, v.0)->0]
            =~= spec_variant_uris(base, variants).push(spec_url_join_ok(base, v.0)->0));
    }
}

/// Every variant that is not an I-frame stream and resolves is offered: the
/// offered URIs are exactly the resolutions of those variants, in order.
pub proof fn lemma_playable_variants_all_offered(
    base: Seq<char>,
    variants: Seq<(Seq<char>, bool)>,
    i: int,
)
    requires
        0 <= i < variants.len(),
        !variants[i].1,
        spec_url_join_ok(base, variants[i].0) is Some,
    ensures
        spec_variant_uris(base, variants) == spec_variant_uris(base, variants.take(i)).push(
            spec_url_join_ok(base, variants[i].0)->0,
        ) + spec_variant_uris(base, variants.skip(i + 1)),
{
    let pre = variants.take(i);
    let post = variants.skip(i + 1);
    assert(variants =~= pre.push(variants[i]) + post);
    lemma_variant_uris_append(base, pre.push(variants[i]), post);
    lemma_variant_uris_push(base, pre, variants[i]);
}

/// Resolves the URIs of the variants that can be chosen, skipping I-frame
/// streams and URIs that do not resolve against `base_uri`.
pub fn variant_uris(base_uri: &str, variants: &Vec<Variant>) -> (res: Vec<String>)
    ensures
        res.deep_view() == spec_variant_uris(base_uri@, variants@.map_values(|v: Variant| v@)),
{
    let ghost vs = variants@.map_values(|v: Variant| v@);
    let mut out: Vec<String> = Vec::new();
    let mut i: usize = 0;
    while i < variants.len()
        invariant
            i <= variants.len(),
            vs == variants@.map_values(|v: Variant| v@),
            out.deep_view() == spec_variant_uris(base_uri@, vs.take(i as int)),
        decreases variants.len() - i,
    {
        let ghost before = out.deep_view();
        let v = &variants[i];
        assert(vs.take(i + 1).drop_last() =~= vs.take(i as int));
        assert(vs.take(i + 1).last() == v@);
        if !v.is_i_frame {
            match url_join(base_uri, v.uri.as_str()) {
                Ok(u) => {
                    out.push(u);
                    assert(out.deep_view() =~= before.push(out@[out@.len() - 1]@));
                },
                Err(_) => {},
            }
        }
        i = i + 1;
    }
    assert(vs.take(variants@.len() as int) =~= vs);
    out
}

/// Where reading a playlist stands after its first look at the input.
#[derive(Debug)]
pub enum ParseStep {
    /// The input was a media playlist: nothing is left to do.
    Done(MediaPlaylist),
    /// The input was a master playlist: one of these variant URIs is to be
    /// chosen (`select_variant`), fetched, and read (`finish_parse`).
    SelectVariant(Vec<String>),
}

/// Reads a playlist (in base64 or plain): a media playlist is done; of a
/// master playlist, the URIs of its selectable variants are returned for a
/// choice.
pub fn start_parse(base_uri: &str, input: &[u8]) -> (res: Result<ParseStep, Error>)
    ensures
        match spec_parse_playlist(spec_playlist_bytes(input@)) {
            Err(text) => (res matches Err(Error::PlaylistParse(e)) && e@ == text),
            Ok(PlaylistModel::Media(segments)) => (res matches Ok(ParseStep::Done(pl)) && pl@
                == segments),
            Ok(PlaylistModel::Master(variants)) => (res matches Ok(ParseStep::SelectVariant(uris))
                && uris.deep_view() == spec_variant_uris(base_uri@, variants)),
        },
{
    let bytes = decode_or_keep(input);
    match parse_playlist_res(bytes.as_slice()) {
        Err(e) => Err(Error::PlaylistParse(e)),
        Ok(Playlist::MediaPlaylist(pl)) => Ok(ParseStep::Done(pl)),
        Ok(Playlist::MasterPlaylist(pl)) => {
            let uris = variant_uris(base_uri, &pl.variants);
            Ok(ParseStep::SelectVariant(uris))
        },
    }
}

/// The URI of the chosen variant; an index past the offered ones is refused.
pub fn select_variant(uris: &Vec<String>, index: usize) -> (res: Result<String, Error>)
    ensures
        index < uris@.len() ==> (res matches Ok(u) && u@ == uris@[index as int]@),
        index >= uris@.len() ==> res matches Err(Error::SelectOutOfRange),
{
    if index < uris.len() {
        Ok(uris[index].clone())
    } else {
        Err(Error::SelectOutOfRange)
    }
}

/// Reads the fetched playlist of the chosen variant (in base64 or plain) as a
/// media playlist.
pub fn finish_parse(content: &[u8]) -> (res: Result<MediaPlaylist, Error>)
    ensures
        match spec_parse_media_playlist(spec_playlist_bytes(content@)) {
            Err(text) => (res matches Err(Error::PlaylistParse(e)) && e@ == text),
            Ok(segments) => (res matches Ok(pl) && pl@ == segments),
        },
{
    let bytes = decode_or_keep(content);
    match parse_media_playlist_res(bytes.as_slice()) {
        Err(e) => Err(Error::PlaylistParse(e)),
        Ok(pl) => Ok(pl),
    }
}

} // verus!
