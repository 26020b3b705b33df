//! Password hashes and login tokens. Both come from outside crates: `bcrypt`
//! hashes and checks passwords, `jsonwebtoken` signs tokens. Nothing in this
//! module is proved; its contracts say what the ledger relies on.

use vstd::prelude::*;

verus! {

#[verifier::external_type_specification]
#[verifier::external_body]
pub struct ExBcryptError(bcrypt::BcryptError);

#[verifier::external_type_specification]
#[verifier::external_body]
pub struct ExTokenError(jsonwebtoken::errors::Error);

/// What `bcrypt::verify` makes of a password and a stored hash: whether the
/// password is the one that was hashed, or `None` where the hash is
/// malformed.
pub uninterp spec fn password_check(password: Seq<char>, hash: Seq<char>) -> Option<bool>;

/// The token that `jsonwebtoken::encode` signs with `secret` for the claims
/// `sub`, `role` and `exp`, or `None` where it reports an error.
pub uninterp spec fn signed_token(
    subject: Seq<char>,
    role: Seq<char>,
    expires: u64,
    secret: Seq<char>,
) -> Option<Seq<char>>;

/// Calls `bcrypt::hash` with the default cost. The salt is drawn at random,
/// so the hash that comes back is not named. Whatever the salt, the hash
/// holds the cost and the salt that made it, and `bcrypt::verify` hashes
/// the password anew with these: the password matches its own hash.
#[verifier::external_body]
pub(crate) fn hash_password(password: &str) -> (r: Result<String, bcrypt::BcryptError>)
    ensures
        r matches Ok(hash) ==> password_check(password@, hash@) == Some(true),
{
    bcrypt::hash(password, bcrypt::DEFAULT_COST)
}

/// Calls `bcrypt::verify`. It hashes `password` anew with the cost and salt
/// that `hash` holds and compares, so its answer depends on the two
/// arguments alone: it is the one that [`password_check`] names.
#[verifier::external_body]
pub(crate) fn check_password(password: &str, hash: &str) -> (r: Result<bool, bcrypt::BcryptError>)
    ensures
        match r {
            Ok(matches) => password_check(password@, hash@) == Some(matches),
            Err(_) => password_check(password@, hash@) is None,
        },
{
    bcrypt::verify(password, hash)
}

/// Calls `jsonwebtoken::encode` with the default header (HS256), the claims
/// `sub`, `role` and `exp` in this order, and `secret` as the key. The
/// signature is an HMAC of header and claims, so the token depends on the
/// four arguments alone: it is the one that [`signed_token`] names.
#[verifier::external_body]
pub(crate) fn sign_token(subject: &str, role: &str, expires: u64, secret: &str) -> (r: Result<
    String,
    jsonwebtoken::errors::Error,
>)
    ensures
        match r {
            Ok(token) => signed_token(subject@, role@, expires, secret@) == Some(token@),
            Err(_) => signed_token(subject@, role@, expires, secret@) is None,
        },
{
    let mut claims = serde_json::Map::new();
    claims.insert("sub".to_string(), serde_json::Value::from(subject));
    claims.insert("role".to_string(), serde_json::Value::from(role));
    claims.insert("exp".to_string(), serde_json::Value::from(expires));
    let key = jsonwebtoken::EncodingKey::from_secret(secret.as_bytes());
    jsonwebtoken::encode(&jsonwebtoken::Header::default(), &claims, &key)
}

} // verus!
