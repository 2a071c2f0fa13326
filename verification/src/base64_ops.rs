use vstd::prelude::*;

use base64::prelude::BASE64_STANDARD;
use base64::Engine;

verus! {

/// Declaration of the base64 decoder's error type, carried opaquely.
#[verifier::external_type_specification]
#[verifier::external_body]
pub struct ExDecodeError(base64::DecodeError);

/// What the standard-alphabet, padded base64 engine decodes the bytes to, or
/// `None` where it rejects them.
pub uninterp spec fn spec_base64_decode(input: Seq<u8>) -> Option<Seq<u8>>;

/// Calls `base64::Engine::decode` on `base64::prelude::BASE64_STANDARD`.
/// Claimed: the outcome is `spec_base64_decode(input)`.
#[verifier::external_body]
pub(crate) fn base64_decode(input: &[u8]) -> (res: Result<Vec<u8>, base64::DecodeError>)
    ensures
        res matches Ok(v) ==> spec_base64_decode(input@) == Some(v@),
        res is Err ==> spec_base64_decode(input@) is None,
{
    BASE64_STANDARD.decode(input)
}

/// The bytes a playlist is read from: the base64 decoding of the input where
/// the input is valid base64, else the input itself.
pub open spec fn spec_playlist_bytes(input: Seq<u8>) -> Seq<u8> {
    match spec_base64_decode(input) {
        Some(decoded) => decoded,
        None => input,
    }
}

/// A playlist sent base64-encoded is read exactly as the plain playlist: where
/// `encoded` decodes to `plain` and `plain` itself is not valid base64 (as no
/// playlist text is, since it starts with `#`), both give the same bytes to
/// read, so every step that reads through `spec_playlist_bytes` treats them
/// alike.
pub proof fn lemma_encoded_playlist_reads_as_plain(encoded: Seq<u8>, plain: Seq<u8>)
    requires
        spec_base64_decode(encoded) == Some(plain),
        spec_base64_decode(plain) is None,
    ensures
        spec_playlist_bytes(encoded) == spec_playlist_bytes(plain),
        spec_playlist_bytes(plain) == plain,
{
}

/// Decodes `input` as base64 where it is valid base64, and otherwise returns
/// it unchanged.
pub fn decode_or_keep(input: &[u8]) -> (res: Vec<u8>)
    ensures
        res@ == spec_playlist_bytes(input@),
{
    match base64_decode(input) {
        Ok(decoded) => decoded,
        Err(_) => vstd::slice::slice_to_vec(input),
    }
}

} // verus!
