use nightwatche::auth::{api_key_hash, authenticate, bearer_header, AuthError};
use sha3::Digest;

#[test]
fn key_hash_is_sha3_512() {
    let h = api_key_hash("secret-key");
    assert_eq!(h.len(), 64);
    assert_eq!(h, sha3::Sha3_512::digest(b"secret-key").to_vec());
    assert_ne!(h, b"secret-key".to_vec());
}

#[test]
fn key_hash_of_empty_key() {
    let expected = "a69f73cca23a9ac5c8b567dc185a756e97c982164fe25859e0d1dcc1475c80a615b2123af1f5f94c11e3e9402c3ac558f500199d95b6d3e301758586281dcd26";
    let hex: String = api_key_hash("").iter().map(|b| format!("{:02x}", b)).collect();
    assert_eq!(hex, expected);
}

#[test]
fn own_key_is_accepted() {
    let expected = api_key_hash("k1");
    let header = bearer_header("k1");
    assert_eq!(header, "Bearer k1");
    assert_eq!(authenticate(Some(header.as_str()), &expected), Ok(()));
}

#[test]
fn wrong_key_is_forbidden() {
    let expected = api_key_hash("k1");
    assert_eq!(authenticate(Some("Bearer k2"), &expected), Err(AuthError::Forbidden));
}

#[test]
fn missing_header_is_unauthorized() {
    let expected = api_key_hash("k1");
    assert_eq!(authenticate(None, &expected), Err(AuthError::Unauthorized));
}

#[test]
fn header_without_bearer_scheme_is_unauthorized() {
    let expected = api_key_hash("k1");
    assert_eq!(authenticate(Some("Basic k1"), &expected), Err(AuthError::Unauthorized));
    assert_eq!(authenticate(Some("bearer k1"), &expected), Err(AuthError::Unauthorized));
    assert_eq!(authenticate(Some("Bearer"), &expected), Err(AuthError::Unauthorized));
}

#[test]
fn empty_bearer_key_is_checked() {
    let expected = api_key_hash("");
    assert_eq!(authenticate(Some("Bearer "), &expected), Ok(()));
}
