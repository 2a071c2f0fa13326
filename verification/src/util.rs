use vstd::prelude::*;

use sha2::Digest as Sha2Digest;
use sha2::Sha256;

verus! {

/// Appending a character to a `String` (std's `String::push`): the text
/// grows by exactly that character at its end.
pub assume_specification[ String::push ](s: &mut String, ch: char)
    ensures
        final(s)@ == old(s)@.push(ch),
;

/// The SHA-256 digest of the bytes, as computed by the `sha2` crate.
pub uninterp spec fn spec_sha256(bytes: Seq<u8>) -> Seq<u8>;

/// Calls `sha2::Sha256` (`new`, `update`, `finalize`) on the bytes.
/// Claimed: the digest is `spec_sha256(bytes)` and, as for every SHA-256
/// digest, 32 bytes long.
#[verifier::external_body]
pub(crate) fn sha256_digest(bytes: &[u8]) -> (res: Vec<u8>)
    ensures
        res@ == spec_sha256(bytes@),
        res@.len() == 32,
{
    let mut hasher = Sha256::new();
    Sha2Digest::update(&mut hasher, bytes);
    Sha2Digest::finalize(hasher).to_vec()
}

/// The lower-case hexadecimal digit of a value below 16.
pub open spec fn spec_hex_digit(n: u8) -> char {
    if n < 10 {
        (n + 48) as char
    } else {
        (n + 87) as char
    }
}

/// Whether a character is one of `0`-`9`, `a`-`f`.
pub open spec fn is_lower_hex_char(c: char) -> bool {
    ('0' <= c && c <= '9') || ('a' <= c && c <= 'f')
}

/// Lower-case hexadecimal text of the bytes, two digits per byte, high
/// nibble first (what `format!("{:02x}", b)` writes for each byte).
pub open spec fn spec_hex_lower(bytes: Seq<u8>) -> Seq<char>
    decreases bytes.len(),
{
    if bytes.len() == 0 {
        Seq::empty()
    } else {
        spec_hex_lower(bytes.drop_last()) + seq![
            spec_hex_digit(bytes.last() / 16),
            spec_hex_digit(bytes.last() % 16),
        ]
    }
}

/// The name of the cache directory of a playlist's bytes: the lower-case hex
/// text of their SHA-256 digest.
pub open spec fn spec_hash(bytes: Seq<u8>) -> Seq<char> {
    spec_hex_lower(spec_sha256(bytes))
}

fn hex_digit(n: u8) -> (c: char)
    requires
        n < 16,
    ensures
        c == spec_hex_digit(n),
{
    if n < 10 {
        (n + 48) as char
    } else {
        (n + 87) as char
    }
}

/// Writes the bytes as lower-case hexadecimal text.
pub fn to_hex_lower(bytes: &[u8]) -> (res: String)
    ensures
        res@ == spec_hex_lower(bytes@),
{
    let mut out = String::new();
    let mut i: usize = 0;
    while i < bytes.len()
        invariant
            i <= bytes@.len(),
            out@ == spec_hex_lower(bytes@.take(i as int)),
        decreases bytes.len() - i,
    {
        let b = bytes[i];
        assert(bytes@.take(i + 1).drop_last() =~= bytes@.take(i as int));
        assert(bytes@.take(i + 1).last() == b);
        let ghost before = out@;
        out.push(hex_digit(b / 16));
        out.push(hex_digit(b % 16));
        assert(out@ =~= before + seq![spec_hex_digit(b / 16), spec_hex_digit(b % 16)]);
        i = i + 1;
    }
    assert(bytes@.take(bytes@.len() as int) =~= bytes@);
    out
}

/// The cache directory name of the bytes: the lower-case hex text of their
/// SHA-256 digest, 64 characters, stable across runs and builds so that an
/// interrupted download resumes in the same directory.
pub fn hash(bytes: &[u8]) -> (res: String)
    ensures
        res@ == spec_hash(bytes@),
        res@.len() == 64,
        forall|i: int| 0 <= i < res@.len() ==> is_lower_hex_char(#[trigger] res@[i]),
{
    let digest = sha256_digest(bytes);
    let res = to_hex_lower(digest.as_slice());
    proof {
        lemma_hex_lower_shape(spec_sha256(bytes@));
    }
    res
}

/// The hex text of `n` bytes has `2 * n` characters, all of them lower-case
/// hexadecimal digits.
pub proof fn lemma_hex_lower_shape(bytes: Seq<u8>)
    ensures
        spec_hex_lower(bytes).len() == 2 * bytes.len(),
        forall|i: int|
            0 <= i < spec_hex_lower(bytes).len() ==> is_lower_hex_char(
                #[trigger] spec_hex_lower(bytes)[i],
            ),
    decreases bytes.len(),
{
    if bytes.len() > 0 {
        lemma_hex_lower_shape(bytes.drop_last());
        let prev = spec_hex_lower(bytes.drop_last());
        let whole = spec_hex_lower(bytes);
        assert forall|i: int| 0 <= i < whole.len() implies is_lower_hex_char(#[trigger] whole[i]) by {
            if i < prev.len() {
                assert(whole[i] == prev[i]);
            }
        }
    }
}

/// Hex text is injective: two byte strings with the same hex text are equal.
pub proof fn lemma_hex_lower_injective(a: Seq<u8>, b: Seq<u8>)
    requires
        spec_hex_lower(a) == spec_hex_lower(b),
    ensures
        a == b,
    decreases a.len(),
{
    lemma_hex_lower_shape(a);
    lemma_hex_lower_shape(b);
    if a.len() > 0 {
        let ha = spec_hex_lower(a);
        let n = ha.len();
        let pa = spec_hex_lower(a.drop_last());
        let pb = spec_hex_lower(b.drop_last());
        lemma_hex_lower_shape(a.drop_last());
        lemma_hex_lower_shape(b.drop_last());
        assert(pa =~= ha.subrange(0, n - 2));
        assert(pb =~= ha.subrange(0, n - 2));
        lemma_hex_lower_injective(a.drop_last(), b.drop_last());
        let x = a.last();
        let y = b.last();
        assert(ha[n - 2] == spec_hex_digit(x / 16) && ha[n - 2] == spec_hex_digit(y / 16));
        assert(ha[n - 1] == spec_hex_digit(x % 16) && ha[n - 1] == spec_hex_digit(y % 16));
        assert(x / 16 == y / 16);
        assert(x % 16 == y % 16);
        assert(x == y);
        assert(a =~= a.drop_last().push(x));
        assert(b =~= b.drop_last().push(y));
    }
}

/// Two playlists share a cache directory exactly when their SHA-256 digests
/// are equal: the directory name loses nothing of the digest.
pub proof fn lemma_cache_dir_collides_iff_digest_collides(a: Seq<u8>, b: Seq<u8>)
    ensures
        (spec_hash(a) == spec_hash(b)) <==> (spec_sha256(a) == spec_sha256(b)),
{
    if spec_hash(a) == spec_hash(b) {
        lemma_hex_lower_injective(spec_sha256(a), spec_sha256(b));
    }
}

} // verus!
