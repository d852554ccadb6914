//! Authentication of requests between the nodes of the service: a request
//! carries `Authorization: Bearer <key>`, and a node accepts it when the
//! SHA3-512 digest of the key equals the digest of its own key.

use vstd::prelude::*;
use vstd::utf8::encode_utf8;
use sha3::Digest;
use crate::text::{bytes_equal, concat2, strip_prefix, strip_prefix_spec};

verus! {

/// The SHA3-512 digest of a byte sequence.
pub uninterp spec fn sha3_512(data: Seq<u8>) -> Seq<u8>;

/// `sha3::Sha3_512::digest` (the `Digest` trait's one-shot hash): the 64-byte
/// SHA3-512 digest of `data`.
#[verifier::external_body]
fn sha3_512_digest(data: &[u8]) -> (res: Vec<u8>)
    ensures
        res@ == sha3_512(data@),
        res@.len() == 64,
{
    sha3::Sha3_512::digest(data).to_vec()
}

/// Why a request was refused.
#[derive(Clone, Copy, Debug, PartialEq, Eq, Structural)]
pub enum AuthError {
    /// No `Authorization` header, or one that is not of the form `Bearer <key>`
    /// (HTTP 401).
    Unauthorized,
    /// A bearer key whose digest differs from the expected one (HTTP 403).
    Forbidden,
}

/// The scheme word, and the space after it, in front of the key.
pub open spec fn bearer_prefix() -> Seq<char> {
    seq!['B', 'e', 'a', 'r', 'e', 'r', ' ']
}

/// The digest of a key: SHA3-512 over its UTF-8 bytes.
pub open spec fn key_digest(key: Seq<char>) -> Seq<u8> {
    sha3_512(encode_utf8(key))
}

/// What `authenticate` answers to an `Authorization` header value (absent:
/// `None`) against an expected digest.
pub open spec fn authenticate_spec(header: Option<Seq<char>>, expected: Seq<u8>) -> Result<(), AuthError> {
    match header {
        None => Err(AuthError::Unauthorized),
        Some(h) => match strip_prefix_spec(h, bearer_prefix()) {
            None => Err(AuthError::Unauthorized),
            Some(key) => if key_digest(key) == expected {
                Ok(())
            } else {
                Err(AuthError::Forbidden)
            },
        },
    }
}

fn bearer_prefix_str() -> (s: &'static str)
    ensures
        s@ == bearer_prefix(),
{
    let s = "Bearer ";
    proof {
        reveal_strlit("Bearer ");
        assert(s@ =~= bearer_prefix());
    }
    s
}

/// The digest that a node stores of its own API key.
pub fn api_key_hash(api_key: &str) -> (res: Vec<u8>)
    ensures
        res@ == key_digest(api_key@),
        res@.len() == 64,
{
    sha3_512_digest(api_key.as_bytes())
}

/// The `Authorization` header value that carries `api_key`.
pub fn bearer_header(api_key: &str) -> (res: String)
    ensures
        res@ == bearer_prefix() + api_key@,
{
    concat2(bearer_prefix_str(), api_key)
}

/// Checks the `Authorization` header value of a request (`None` where the
/// request has none, or one that is not visible ASCII) against the digest
/// of the node's key.
pub fn authenticate(auth_header: Option<&str>, expected_hash: &[u8]) -> (res: Result<(), AuthError>)
    ensures
        res == authenticate_spec(
            match auth_header {
                Some(h) => Some(h@),
                None => None,
            },
            expected_hash@,
        ),
{
    match auth_header {
        None => Err(AuthError::Unauthorized),
        Some(h) => match strip_prefix(h, bearer_prefix_str()) {
            None => Err(AuthError::Unauthorized),
            Some(key) => {
                let digest = sha3_512_digest(key.as_str().as_bytes());
                if bytes_equal(digest.as_slice(), expected_hash) {
                    Ok(())
                } else {
                    Err(AuthError::Forbidden)
                }
            },
        },
    }
}

/// A request that carries a node's own key in the form `bearer_header` writes
/// it is accepted by a node whose stored digest is `api_key_hash` of that key.
pub proof fn lemma_own_key_accepted(api_key: Seq<char>)
    ensures
        authenticate_spec(Some(bearer_prefix() + api_key), key_digest(api_key)) == Ok::<(), AuthError>(()),
{
    let h = bearer_prefix() + api_key;
    assert(h.take(7) =~= bearer_prefix());
    assert(h.skip(7) =~= api_key);
}

/// A request whose bearer key has the same digest as the node's key is
/// accepted, and one whose key has another digest is refused as forbidden.
pub proof fn lemma_accept_iff_digest_matches(key: Seq<char>, node_key: Seq<char>)
    ensures
        authenticate_spec(Some(bearer_prefix() + key), key_digest(node_key)) == (if key_digest(key)
            == key_digest(node_key) {
            Ok::<(), AuthError>(())
        } else {
            Err(AuthError::Forbidden)
        }),
{
    let h = bearer_prefix() + key;
    assert(h.take(7) =~= bearer_prefix());
    assert(h.skip(7) =~= key);
}

} // verus!
