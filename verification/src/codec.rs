//! Digests, base64 and random bytes, each from the crate that computes it.
use vstd::prelude::*;

verus! {

/// The SHA-256 digest of `bytes`.
pub uninterp spec fn sha256_of(bytes: Seq<u8>) -> Seq<u8>;

/// `sha2::Sha256::digest`: the digest of the input, which is always 32 bytes long.
#[verifier::external_body]
pub(crate) fn sha256(bytes: &[u8]) -> (digest: Vec<u8>)
    ensures
        digest@ == sha256_of(bytes@),
        digest@.len() == 32,
{
    <sha2::Sha256 as sha2::Digest>::digest(bytes).to_vec()
}

/// The standard base64 encoding of `bytes`, with padding.
pub uninterp spec fn base64_standard_of(bytes: Seq<u8>) -> Seq<char>;

/// `base64::engine::general_purpose::STANDARD.encode`. It panics only when the length
/// of the encoding overflows `usize`, which no slice that Rust can allocate reaches.
#[verifier::external_body]
pub(crate) fn base64_standard(bytes: &[u8]) -> (encoded: String)
    ensures
        encoded@ == base64_standard_of(bytes@),
{
    <base64::engine::GeneralPurpose as base64::Engine>::encode(&base64::engine::general_purpose::STANDARD, bytes)
}

/// The URL-safe base64 encoding of `bytes`, without padding.
pub uninterp spec fn url_safe_no_pad_of(bytes: Seq<u8>) -> Seq<char>;

/// `base64::engine::general_purpose::URL_SAFE_NO_PAD.encode`. Like every encoding of
/// the crate, it panics only on lengths that no allocatable slice has.
#[verifier::external_body]
pub(crate) fn url_safe_no_pad(bytes: &[u8]) -> (encoded: String)
    ensures
        encoded@ == url_safe_no_pad_of(bytes@),
{
    <base64::engine::GeneralPurpose as base64::Engine>::encode(&base64::engine::general_purpose::URL_SAFE_NO_PAD, bytes)
}

/// What `URL_SAFE_NO_PAD.decode` makes of a text: the bytes, or `None` where the
/// crate reports a decoding error.
pub uninterp spec fn url_safe_no_pad_decoded(text: Seq<char>) -> Option<Seq<u8>>;

/// `base64::engine::general_purpose::URL_SAFE_NO_PAD.decode`, its error dropped.
#[verifier::external_body]
pub(crate) fn decode_url_safe_no_pad(text: &str) -> (bytes: Option<Vec<u8>>)
    ensures
        match bytes {
            Some(b) => url_safe_no_pad_decoded(text@) == Some(b@),
            None => url_safe_no_pad_decoded(text@) is None,
        },
{
    <base64::engine::GeneralPurpose as base64::Engine>::decode(&base64::engine::general_purpose::URL_SAFE_NO_PAD, text).ok()
}

/// What `URL_SAFE.decode` (padded URL-safe base64) makes of a text, or `None` where
/// the crate reports a decoding error.
pub uninterp spec fn url_safe_decoded(text: Seq<char>) -> Option<Seq<u8>>;

/// `base64::engine::general_purpose::URL_SAFE.decode`, its error dropped.
#[verifier::external_body]
pub(crate) fn decode_url_safe(text: &str) -> (bytes: Option<Vec<u8>>)
    ensures
        match bytes {
            Some(b) => url_safe_decoded(text@) == Some(b@),
            None => url_safe_decoded(text@) is None,
        },
{
    <base64::engine::GeneralPurpose as base64::Engine>::decode(&base64::engine::general_purpose::URL_SAFE, text).ok()
}

/// `count` bytes from `rand::rng()` through `RngCore::fill_bytes`. Nothing is stated
/// of their values, which come from the thread's generator; the generator panics
/// where the operating system cannot seed it, which no argument decides.
#[verifier::external_body]
pub(crate) fn random_bytes(count: usize) -> (bytes: Vec<u8>)
    ensures
        bytes@.len() == count,
{
    let mut bytes = vec![0u8; count];
    rand::RngCore::fill_bytes(&mut rand::rng(), &mut bytes);
    bytes
}

} // verus!
