//! The accept token, by which the server shows that it has understood the
//! client's key: the key and a fixed identifier, hashed and then encoded.

use base64::engine::general_purpose::STANDARD;
use base64::Engine;
use sha1::{Digest, Sha1};
use vstd::prelude::*;
use vstd::string::{StringExecFns, StringSliceAdditionalSpecFns};
use vstd::utf8::encode_utf8;

verus! {

/// The identifier that every WebSocket server appends to the client's key.
pub const WEBSOCKET_GUID: &'static str = "258EAFA5-E914-47DA-95CA-C5AB0DC85B11";

/// The SHA-1 digest of `data`, as `sha1::Sha1::digest` computes it.
pub uninterp spec fn sha1_digest(data: Seq<u8>) -> Seq<u8>;

/// The base64 text of `data` in the standard alphabet, with padding, as the
/// `STANDARD` engine of `base64` encodes it.
pub uninterp spec fn base64_standard(data: Seq<u8>) -> Seq<char>;

/// The accept token for the key `key`: the base64 text of the SHA-1 digest
/// of the UTF-8 bytes of the key followed by the identifier.
pub open spec fn accept_token(key: Seq<char>) -> Seq<char> {
    base64_standard(sha1_digest(encode_utf8(key + WEBSOCKET_GUID@)))
}

/// Calls `sha1::Sha1::digest`, which hashes all of `data` at once. Trusted:
/// the result is the SHA-1 digest of `data`, which is twenty bytes long.
#[verifier::external_body]
fn sha1_of(data: &[u8]) -> (digest: Vec<u8>)
    ensures
        digest@ == sha1_digest(data@),
        digest@.len() == 20,
{
    Sha1::digest(data).to_vec()
}

/// Calls `base64::Engine::encode` on the `STANDARD` engine. Trusted: the
/// result is the padded base64 text of `data`. The call fails where the
/// length of that text does not fit in `usize`; `requires` keeps such data
/// out.
#[verifier::external_body]
fn base64_of(data: &[u8]) -> (text: String)
    requires
        data@.len() / 3 < usize::MAX / 4,
    ensures
        text@ == base64_standard(data@),
{
    STANDARD.encode(data)
}

/// Computes the value of `Sec-WebSocket-Accept` for the client's key. The
/// token depends on the characters of the key alone.
pub fn compute_accept(key: &str) -> (token: String)
    ensures
        token@ == accept_token(key@),
{
    let mut material = key.to_owned();
    material.append(WEBSOCKET_GUID);
    let digest = sha1_of(material.as_str().as_bytes());
    base64_of(digest.as_slice())
}

} // verus!
