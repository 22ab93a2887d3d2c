//! Authentication in front of every endpoint: a request is admitted only when its
//! `X-Signature` is a P-256 ECDSA signature, under the configured key, of the
//! SHA-256 digest of `timestamp "\n" path "\n" body`, and its `X-Timestamp`
//! lies within the receive window.

use vstd::prelude::*;
use vstd::string::StringSliceAdditionalSpecFns;
use p256::ecdsa::signature::Verifier;
use p256::ecdsa::{Signature, VerifyingKey};
use crate::crypto::{sha256, sha256_of};
use crate::encoding::{hex_decode, hex_decoded, parse_i64, signed_text_value, text_eq};
use crate::errors::{is_invalid_input, AppError};

verus! {

/// Largest request body that is read, in bytes.
pub const MAX_BODY_SIZE: usize = 262144;

/// Largest distance between the signed timestamp and the clock, in
/// milliseconds.
pub const MAX_TIMESTAMP_DIFF_MS: i64 = 5000;

/// Whether `sig` is a fixed-size P-256 signature `r || s` with both scalars
/// in range.
pub uninterp spec fn p256_signature_parses(sig: Seq<u8>) -> bool;

/// Whether `sig` is a valid P-256 ECDSA signature of `msg` under the
/// SEC1-encoded public key `key`.
pub uninterp spec fn p256_verifies(key: Seq<u8>, msg: Seq<u8>, sig: Seq<u8>) -> bool;

/// Relies on `ecdsa::Signature::<NistP256>::from_slice`: 64 bytes whose two
/// halves are scalars in `1..n`.
#[verifier::external_body]
fn signature_parses(sig: &[u8]) -> (r: bool)
    ensures
        r == p256_signature_parses(sig@),
{
    Signature::from_slice(sig).is_ok()
}

/// Relies on `VerifyingKey::from_sec1_bytes` and `Verifier::verify` of p256:
/// whether the key parses and the signature verifies over the message; false
/// when either does not parse.
#[verifier::external_body]
fn signature_verifies(key: &[u8], msg: &[u8], sig: &[u8]) -> (r: bool)
    ensures
        r == p256_verifies(key@, msg@, sig@),
{
    match (VerifyingKey::from_sec1_bytes(key), Signature::from_slice(sig)) {
        (Ok(k), Ok(s)) => k.verify(msg, &s).is_ok(),
        _ => false,
    }
}

/// A request header as authentication reads it.
#[derive(Debug, Clone, PartialEq, Eq)]
pub enum Header {
    Missing,
    /// Present, but holding a byte outside visible ASCII and tab.
    Unreadable,
    Text(String),
}

pub open spec fn header_text(h: Header) -> Option<Seq<char>> {
    match h {
        Header::Text(s) => Some(s@),
        _ => None,
    }
}

/// The request methods whose body is taken to be empty.
pub open spec fn ignores_body(method: Seq<char>) -> bool {
    method == "GET"@ || method == "DELETE"@
}

/// The body that a request signs: empty for `GET` and `DELETE`, otherwise
/// what was read, or `None` when it was larger than `MAX_BODY_SIZE` (or could
/// not be read).
pub open spec fn signed_body(method: Seq<char>, body: Option<Seq<u8>>) -> Option<Seq<u8>> {
    if ignores_body(method) {
        Some(Seq::empty())
    } else {
        match body {
            Some(b) => if b.len() <= MAX_BODY_SIZE {
                Some(b)
            } else {
                None
            },
            None => None,
        }
    }
}

/// `timestamp "\n" path "\n" body`, the text whose digest is signed.
pub open spec fn signing_message(timestamp: Seq<char>, path: Seq<char>, body: Seq<u8>) -> Seq<u8> {
    utf8_bytes(timestamp) + seq![10u8] + utf8_bytes(path) + seq![10u8] + body
}

/// The UTF-8 encoding of a text.
pub open spec fn utf8_bytes(s: Seq<char>) -> Seq<u8> {
    vstd::utf8::encode_utf8(s)
}

pub open spec fn within_window(now_ms: int, ts_ms: int) -> bool {
    -MAX_TIMESTAMP_DIFF_MS <= now_ms - ts_ms <= MAX_TIMESTAMP_DIFF_MS
}

pub open spec fn fits_i64(v: int) -> bool {
    i64::MIN <= v <= i64::MAX
}

/// Whether a timestamp header holds decimal text that fits in an `i64`.
pub open spec fn timestamp_fits(timestamp: Header) -> bool {
    &&& header_text(timestamp) is Some
    &&& signed_text_value(header_text(timestamp)->0) is Some
    &&& fits_i64(signed_text_value(header_text(timestamp)->0)->0)
}

/// Both headers are present, and the timestamp is decimal text within the
/// receive window of `now_ms`.
pub open spec fn headers_fresh(signature: Header, timestamp: Header, now_ms: int) -> bool {
    &&& header_text(signature) is Some
    &&& timestamp_fits(timestamp)
    &&& within_window(now_ms, signed_text_value(header_text(timestamp)->0)->0)
}

/// The signature header is the hex of a well-formed P-256 signature.
pub open spec fn signature_well_formed(signature: Header) -> bool {
    &&& header_text(signature) is Some
    &&& hex_decoded(header_text(signature)->0) is Some
    &&& p256_signature_parses(hex_decoded(header_text(signature)->0)->0)
}

/// Whether a request is admitted.
pub open spec fn admits(
    key: Seq<u8>,
    method: Seq<char>,
    signature: Header,
    timestamp: Header,
    path: Seq<char>,
    body: Option<Seq<u8>>,
    now_ms: int,
) -> bool {
    &&& header_text(signature) is Some
    &&& header_text(timestamp) is Some
    &&& signed_text_value(header_text(timestamp)->0) is Some
    &&& fits_i64(signed_text_value(header_text(timestamp)->0)->0)
    &&& within_window(now_ms, signed_text_value(header_text(timestamp)->0)->0)
    &&& hex_decoded(header_text(signature)->0) is Some
    &&& p256_signature_parses(hex_decoded(header_text(signature)->0)->0)
    &&& signed_body(method, body) is Some
    &&& p256_verifies(
        key,
        sha256_of(
            signing_message(header_text(timestamp)->0, path, signed_body(method, body)->0),
        ),
        hex_decoded(header_text(signature)->0)->0,
    )
}

/// For a request whose signature header is the hex text of `s`, whose
/// timestamp header is decimal text denoting `t`, and whose body fits: the
/// request is admitted exactly when `s` is a valid P-256 signature, under the
/// configured key, of the SHA-256 digest of `timestamp "\n" path "\n" body`,
/// and `t` is within `MAX_TIMESTAMP_DIFF_MS` of the clock.
pub proof fn lemma_admission(
    key: Seq<u8>,
    method: Seq<char>,
    signature: Header,
    timestamp: Header,
    path: Seq<char>,
    body: Option<Seq<u8>>,
    now_ms: int,
    s: Seq<u8>,
    t: int,
)
    requires
        header_text(signature) is Some,
        hex_decoded(header_text(signature)->0) == Some(s),
        header_text(timestamp) is Some,
        signed_text_value(header_text(timestamp)->0) == Some(t),
        fits_i64(t),
        signed_body(method, body) is Some,
    ensures
        admits(key, method, signature, timestamp, path, body, now_ms) <==> (p256_signature_parses(s)
            && p256_verifies(
            key,
            sha256_of(signing_message(header_text(timestamp)->0, path, signed_body(method, body)->0)),
            s,
        ) && within_window(now_ms, t)),
{
}

/// Whether a request with this method is admitted with an empty body
/// (`GET` and `DELETE`), so that its body need not be read.
pub fn ignores_request_body(method: &str) -> (r: bool)
    ensures
        r == ignores_body(method@),
{
    text_eq(method, "GET") || text_eq(method, "DELETE")
}

fn append_bytes(out: &mut Vec<u8>, bytes: &[u8])
    ensures
        final(out)@ == old(out)@ + bytes@,
{
    let ghost start = out@;
    let mut i: usize = 0;
    while i < bytes.len()
        invariant
            i <= bytes@.len(),
            out@ == start + bytes@.subrange(0, i as int),
        decreases bytes@.len() - i,
    {
        out.push(bytes[i]);
        i = i + 1;
        assert(out@ =~= start + bytes@.subrange(0, i as int));
    }
    assert(bytes@.subrange(0, i as int) =~= bytes@);
}

/// Builds `timestamp "\n" path "\n" body`.
pub fn build_signing_message(timestamp: &str, path: &str, body: &[u8]) -> (r: Vec<u8>)
    ensures
        r@ == signing_message(timestamp@, path@, body@),
{
    let mut msg: Vec<u8> = Vec::new();
    append_bytes(&mut msg, timestamp.as_bytes());
    msg.push(10u8);
    append_bytes(&mut msg, path.as_bytes());
    msg.push(10u8);
    append_bytes(&mut msg, body);
    assert(msg@ =~= signing_message(timestamp@, path@, body@));
    msg
}

/// A request that would be admitted but for a body over `MAX_BODY_SIZE`.
pub open spec fn body_too_large(
    method: Seq<char>,
    signature: Header,
    timestamp: Header,
    body: Option<Seq<u8>>,
    now_ms: int,
) -> bool {
    &&& headers_fresh(signature, timestamp, now_ms)
    &&& signature_well_formed(signature)
    &&& signed_body(method, body) is None
}

pub open spec fn body_view(body: Option<&[u8]>) -> Option<Seq<u8>> {
    match body {
        Some(b) => Some(b@),
        None => None,
    }
}

/// Decides whether a request is admitted. `key` is the SEC1 encoding of the
/// configured public key; `body` is what was read of the body, `None` when it
/// exceeded `MAX_BODY_SIZE`; `now_ms` is the clock in milliseconds since the
/// epoch. The headers, the timestamp and the signature are checked in that
/// order, then the body size, then the signature itself: a body that is too
/// large is invalid input, every other refusal is `Unauthorized`.
pub fn authenticate(
    key: &[u8],
    method: &str,
    signature: &Header,
    timestamp: &Header,
    path: &str,
    body: Option<&[u8]>,
    now_ms: i64,
) -> (r: Result<(), AppError>)
    ensures
        r is Ok <==> admits(
            key@,
            method@,
            *signature,
            *timestamp,
            path@,
            body_view(body),
            now_ms as int,
        ),
        body_too_large(method@, *signature, *timestamp, body_view(body), now_ms as int)
            ==> is_invalid_input(r, "Request body too large"@),
        r is Err && !body_too_large(
            method@,
            *signature,
            *timestamp,
            body_view(body),
            now_ms as int,
        ) ==> r == Err::<(), AppError>(AppError::Unauthorized),
{
    let sig_text = match signature {
        Header::Text(s) => s,
        _ => {
            return Err(AppError::Unauthorized);
        },
    };
    let ts_text = match timestamp {
        Header::Text(s) => s,
        _ => {
            return Err(AppError::Unauthorized);
        },
    };
    let ts = match parse_i64(ts_text.as_str()) {
        Some(v) => v,
        None => {
            return Err(AppError::Unauthorized);
        },
    };
    let diff: i128 = now_ms as i128 - ts as i128;
    if diff > MAX_TIMESTAMP_DIFF_MS as i128 || diff < -(MAX_TIMESTAMP_DIFF_MS as i128) {
        return Err(AppError::Unauthorized);
    }
    let sig_bytes = match hex_decode(sig_text.as_str()) {
        Ok(b) => b,
        Err(_) => {
            return Err(AppError::Unauthorized);
        },
    };
    if !signature_parses(sig_bytes.as_slice()) {
        return Err(AppError::Unauthorized);
    }
    let empty: Vec<u8> = Vec::new();
    let signed: &[u8] = if ignores_request_body(method) {
        empty.as_slice()
    } else {
        match body {
            Some(b) => {
                if b.len() > MAX_BODY_SIZE {
                    return Err(AppError::invalid_input("Request body too large"));
                }
                b
            },
            None => {
                return Err(AppError::invalid_input("Request body too large"));
            },
        }
    };
    let msg = build_signing_message(ts_text.as_str(), path, signed);
    let digest = sha256(msg.as_slice());
    if !signature_verifies(key, digest.as_slice(), sig_bytes.as_slice()) {
        return Err(AppError::Unauthorized);
    }
    assert(signed@ == signed_body(method@, body_view(body))->0);
    Ok(())
}

} // verus!
