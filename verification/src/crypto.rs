//! The hashing and encoding primitives that request signing and login flows use:
//! MD5, SHA-256 and HMAC-SHA-256 (outside crates, named here), and the hex and
//! base64 text encodings (outside crates, whose output is stated exactly).
use vstd::prelude::*;
use base64::Engine;
use hmac::Mac;
use sha2::Digest;

verus! {

/// The MD5 digest of `data`.
pub uninterp spec fn md5_digest(data: Seq<u8>) -> Seq<u8>;

/// The SHA-256 digest of `data`.
pub uninterp spec fn sha256_digest(data: Seq<u8>) -> Seq<u8>;

/// The HMAC-SHA-256 of `data` under `key`.
pub uninterp spec fn hmac_sha256_digest(key: Seq<u8>, data: Seq<u8>) -> Seq<u8>;

/// `md5::Md5::digest` (md-5 crate): the 16-byte MD5 digest of `data`.
#[verifier::external_body]
pub(crate) fn md5(data: &[u8]) -> (res: Vec<u8>)
    ensures
        res@ == md5_digest(data@),
        res@.len() == 16,
{
    md5::Md5::digest(data).to_vec()
}

/// `sha2::Sha256::digest`: the 32-byte SHA-256 digest of `data`.
#[verifier::external_body]
pub(crate) fn sha256(data: &[u8]) -> (res: Vec<u8>)
    ensures
        res@ == sha256_digest(data@),
        res@.len() == 32,
{
    sha2::Sha256::digest(data).to_vec()
}

/// `hmac::Hmac<Sha256>` keyed with `key` (any key length is accepted), fed `data`:
/// the 32-byte tag.
#[verifier::external_body]
pub(crate) fn hmac_sha256(key: &[u8], data: &[u8]) -> (res: Vec<u8>)
    ensures
        res@ == hmac_sha256_digest(key@, data@),
        res@.len() == 32,
{
    <hmac::Hmac<sha2::Sha256> as Mac>::new_from_slice(key).unwrap().chain_update(data)
        .finalize().into_bytes().to_vec()
}

/// The lower-case hex digit for a value below 16.
pub open spec fn hex_digit(n: u8) -> char {
    if n < 10 {
        (('0' as u8) + n) as char
    } else {
        (('a' as u8) + n - 10) as char
    }
}

/// Lower-case hex text of `data`: two digits per byte, high half first.
pub open spec fn hex_lower(data: Seq<u8>) -> Seq<char>
    decreases data.len(),
{
    if data.len() == 0 {
        seq![]
    } else {
        hex_lower(data.drop_last()) + seq![
            hex_digit(data.last() >> 4u8),
            hex_digit(data.last() & 0xfu8),
        ]
    }
}

/// `hex::encode`: the lower-case hex text of `data`.
#[verifier::external_body]
pub(crate) fn hex_encode(data: &[u8]) -> (res: String)
    ensures
        res@ == hex_lower(data@),
{
    hex::encode(data)
}

/// The base64 character for a six-bit value, in the standard alphabet
/// (`+`, `/`) or the URL-safe one (`-`, `_`).
pub open spec fn b64_char(v: u8, url_safe: bool) -> char {
    if v < 26 {
        (('A' as u8) + v) as char
    } else if v < 52 {
        (('a' as u8) + v - 26) as char
    } else if v < 62 {
        (('0' as u8) + v - 52) as char
    } else if v == 62 {
        if url_safe {
            '-'
        } else {
            '+'
        }
    } else {
        if url_safe {
            '_'
        } else {
            '/'
        }
    }
}

/// Base64 text of `data` (RFC 4648): each group of three bytes becomes four
/// characters; a final group of one or two bytes becomes two or three characters,
/// followed by `=` padding to four when `pad` is set.
pub open spec fn b64_encode(data: Seq<u8>, url_safe: bool, pad: bool) -> Seq<char>
    decreases data.len(),
{
    if data.len() == 0 {
        seq![]
    } else if data.len() == 1 {
        seq![b64_char(data[0] >> 2u8, url_safe), b64_char((data[0] & 3u8) << 4u8, url_safe)]
            + if pad {
            seq!['=', '=']
        } else {
            seq![]
        }
    } else if data.len() == 2 {
        seq![
            b64_char(data[0] >> 2u8, url_safe),
            b64_char(((data[0] & 3u8) << 4u8) | (data[1] >> 4u8), url_safe),
            b64_char((data[1] & 0xfu8) << 2u8, url_safe),
        ] + if pad {
            seq!['=']
        } else {
            seq![]
        }
    } else {
        seq![
            b64_char(data[0] >> 2u8, url_safe),
            b64_char(((data[0] & 3u8) << 4u8) | (data[1] >> 4u8), url_safe),
            b64_char(((data[1] & 0xfu8) << 2u8) | (data[2] >> 6u8), url_safe),
            b64_char(data[2] & 0x3fu8, url_safe),
        ] + b64_encode(data.skip(3), url_safe, pad)
    }
}

/// `base64::engine::general_purpose::STANDARD.encode`: standard alphabet, padded.
#[verifier::external_body]
pub(crate) fn base64_standard(data: &[u8]) -> (res: String)
    requires
        data.len() < usize::MAX / 2,
    ensures
        res@ == b64_encode(data@, false, true),
{
    base64::engine::general_purpose::STANDARD.encode(data)
}

/// `base64::engine::general_purpose::URL_SAFE_NO_PAD.encode`: URL-safe alphabet,
/// no padding.
#[verifier::external_body]
pub(crate) fn base64_url_no_pad(data: &[u8]) -> (res: String)
    requires
        data.len() < usize::MAX / 2,
    ensures
        res@ == b64_encode(data@, true, false),
{
    base64::engine::general_purpose::URL_SAFE_NO_PAD.encode(data)
}

} // verus!
