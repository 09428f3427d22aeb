//! Signing through the external key-management service.
//!
//! Keys live in the service under the name `{worker_id}-{key_name}`; only
//! ed25519 is accepted.  Payloads travel to the service base64-encoded; the
//! signature comes back base64-encoded, prefixed with a key-version marker,
//! which is stripped before decoding.  A failure whose reported errors
//! mention a missing key is distinguished from every other failure.

use vstd::prelude::*;
use vstd::string::StrSliceExecFns;
use vstd::string::StringExecFns;
use crate::errors::SignError;
use crate::strutil::{contains_sub, has_prefix, str_contains, str_eq};

verus! {

/// The base64 rendering (standard alphabet, padded) of a byte string.
/// Named for base64's standard engine: the text depends on the bytes alone.
pub uninterp spec fn b64_of(bytes: Seq<u8>) -> Seq<char>;

/// Relies on base64's standard-alphabet padded engine: encoding is a
/// function of the bytes alone, four characters for every three bytes.
#[verifier::external_body]
fn b64_encode(bytes: &Vec<u8>) -> (r: String)
    ensures
        r@ == b64_of(bytes@),
        r@.len() == ((bytes@.len() + 2) / 3) * 4,
{
    base64::engine::Engine::encode(&base64::engine::general_purpose::STANDARD, bytes)
}

/// Relies on base64's standard-alphabet padded engine, which decodes only
/// canonical text: decoding succeeds exactly on encodings, and inverts the
/// encoding.
#[verifier::external_body]
fn b64_decode(text: &str) -> (r: Result<Vec<u8>, String>)
    ensures
        match r {
            Ok(v) => text@ == b64_of(v@) && (forall|bs: Seq<u8>| text@ == b64_of(bs) ==> bs
                == v@),
            Err(_) => forall|bs: Seq<u8>| text@ != b64_of(bs),
        },
{
    match base64::engine::Engine::decode(&base64::engine::general_purpose::STANDARD, text) {
        Ok(v) => Ok(v),
        Err(e) => Err(e.to_string()),
    }
}

/// The service key name for a worker's key.
pub fn key_for_worker(worker_id: &str, key_name: &str) -> (r: String)
    ensures
        r@ == worker_id@ + "-"@ + key_name@,
{
    let mut s = String::from_str(worker_id);
    s.append("-");
    s.append(key_name);
    proof {
        assert(s@ =~= worker_id@ + "-"@ + key_name@);
    }
    s
}

/// Only ed25519 keys are issued.
pub fn algorithm_supported(algorithm: &str) -> (r: bool)
    ensures
        r == (algorithm@ == "ed25519"@),
{
    str_eq(algorithm, "ed25519")
}

/// The payload as the signing request carries it: base64 text.
pub fn sign_request_text(payload: &Vec<u8>) -> (r: String)
    ensures
        r@ == b64_of(payload@),
{
    b64_encode(payload)
}

/// The key-version marker the service prefixes to signatures.
pub open spec fn version_prefix() -> Seq<char> {
    "vault:v1:"@
}

/// The signature text with the key-version marker stripped, when present.
pub open spec fn stripped(sig: Seq<char>) -> Seq<char> {
    if has_prefix(sig, version_prefix()) {
        sig.skip(version_prefix().len() as int)
    } else {
        sig
    }
}

/// Strips the key-version marker from the front of the signature text, if
/// it is there.
pub fn strip_version_prefix(sig: &str) -> (r: String)
    ensures
        r@ == stripped(sig@),
{
    proof {
        reveal_strlit("vault:v1:");
    }
    if crate::strutil::str_starts_with(sig, "vault:v1:") {
        let len: usize = sig.unicode_len();
        let rest = sig.substring_char(9, len);
        String::from_str(rest)
    } else {
        String::from_str(sig)
    }
}

/// Decodes the signature the service returned: the version marker is
/// stripped, the remainder base64-decoded.  Text that is not a valid
/// encoding is an internal error.
pub fn decode_signature(sig_text: &str) -> (r: Result<Vec<u8>, SignError>)
    ensures
        r matches Ok(v) ==> stripped(sig_text@) == b64_of(v@),
        forall|bs: Seq<u8>| stripped(sig_text@) == b64_of(bs) ==> (r matches Ok(v) && v@ == bs),
        r matches Err(e) ==> e is Internal,
{
    let bare = strip_version_prefix(sig_text);
    match b64_decode(bare.as_str()) {
        Ok(v) => Ok(v),
        Err(e) => Err(SignError::Internal(e)),
    }
}

/// Decodes the exported public key, which the service returns as base64
/// text.  Text that is not a valid encoding is an internal error.
pub fn decode_public_key(key_text: &str) -> (r: Result<Vec<u8>, SignError>)
    ensures
        r matches Ok(v) ==> key_text@ == b64_of(v@),
        forall|bs: Seq<u8>| key_text@ == b64_of(bs) ==> (r matches Ok(v) && v@ == bs),
        r matches Err(e) ==> e is Internal,
{
    match b64_decode(key_text) {
        Ok(v) => Ok(v),
        Err(e) => Err(SignError::Internal(e)),
    }
}

/// Classifies a signing failure by the service's reported errors: one that
/// mentions a missing key means the key does not exist; anything else is
/// internal.  Both carry the failure's description.
pub fn classify_sign_failure(api_errors: Option<&Vec<String>>, description: &str) -> (r: SignError)
    ensures
        match api_errors {
            Some(es) => if exists|i: int|
                0 <= i < es@.len() && contains_sub(#[trigger] es@[i]@, "not found"@) {
                r matches SignError::KeyNotFound(d) && d@ == description@
            } else {
                r matches SignError::Internal(d) && d@ == description@
            },
            None => r matches SignError::Internal(d) && d@ == description@,
        },
{
    match api_errors {
        Some(es) => {
            if any_mentions_missing_key(es) {
                SignError::KeyNotFound(String::from_str(description))
            } else {
                SignError::Internal(String::from_str(description))
            }
        },
        None => SignError::Internal(String::from_str(description)),
    }
}

/// Does any reported error mention a missing key?
fn any_mentions_missing_key(es: &Vec<String>) -> (r: bool)
    ensures
        r == exists|i: int| 0 <= i < es@.len() && contains_sub(#[trigger] es@[i]@, "not found"@),
{
    let mut i: usize = 0;
    while i < es.len()
        invariant
            0 <= i <= es@.len(),
            forall|j: int| 0 <= j < i ==> !contains_sub(#[trigger] es@[j]@, "not found"@),
        decreases es@.len() - i,
    {
        if str_contains(es[i].as_str(), "not found") {
            return true;
        }
        i = i + 1;
    }
    false
}

/// Law (signature round trip): the text the service would return for a
/// signature — the version marker before its base64 encoding — decodes
/// back to exactly those signature bytes.
pub proof fn lemma_signature_decode_inverts(sig: Seq<u8>)
    ensures
        stripped(version_prefix() + b64_of(sig)) == b64_of(sig),
{
    let text = version_prefix() + b64_of(sig);
    assert(has_prefix(text, version_prefix())) by {
        assert(text.subrange(0, version_prefix().len() as int) =~= version_prefix());
    }
    assert(text.skip(version_prefix().len() as int) =~= b64_of(sig));
}

} // verus!
