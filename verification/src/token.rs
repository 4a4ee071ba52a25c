//! The token codec: claim sets signed with HMAC-SHA256 into compact tokens,
//! and tokens verified back into claim sets.

use std::collections::BTreeMap;

use hmac::{Hmac, Mac};
use jwt::{SignWithKey, VerifyWithKey};
use serde_json::Value;
use sha2::Sha256;
use vstd::prelude::*;

use crate::claims::{claim_named, Claim, ClaimModel, ClaimValue};
use crate::failure::{AuthError, Failure};

verus! {

/// An authorization header's value as a request carried it.
#[derive(Debug)]
pub struct Token(pub String);

#[verifier::external_type_specification]
#[verifier::external_body]
pub struct ExJwtError(jwt::Error);

/// The token that signing `claims` under `key` gives, if it gives one.
pub uninterp spec fn signed_token(claims: Seq<(Seq<char>, ClaimModel)>, key: Seq<u8>) -> Option<Seq<char>>;

/// The claims that `token` verifies to under `key`, if it verifies.
pub uninterp spec fn verified_claims(token: Seq<char>, key: Seq<u8>) -> Option<Seq<(Seq<char>, ClaimModel)>>;

/// A character of a compact token: a letter, a digit, `-`, `_` or `.`.
pub open spec fn is_token_char(c: char) -> bool {
    ('A' <= c && c <= 'Z') || ('a' <= c && c <= 'z') || ('0' <= c && c <= '9') || c == '-' || c
        == '_' || c == '.'
}

/// The text is written in the characters of compact tokens alone.
pub open spec fn is_compact(token: Seq<char>) -> bool {
    forall|i: int| 0 <= i < token.len() ==> is_token_char(#[trigger] token[i])
}

/// `back` gives every name the value that `claims` gives it.
pub open spec fn same_claims(
    back: Seq<(Seq<char>, ClaimModel)>,
    claims: Seq<(Seq<char>, ClaimModel)>,
) -> bool {
    forall|name: Seq<char>| #[trigger] claim_named(back, name) == claim_named(claims, name)
}

/// `jwt::SignWithKey::sign_with_key` on a map of the claims (a later claim
/// of a name replacing an earlier one; `Other` written as null), with an
/// `Hmac<Sha256>` made of `key`.
///
/// Trusted: the result is a function of the claims and the key. A token so
/// made verifies under the same key, and reads back name by name as what was
/// signed: the crate signs `header.claims` and, to verify, recomputes that
/// same code over the same two parts. The token is three runs of URL-safe
/// base64 without padding, joined by dots.
#[verifier::external_body]
fn jwt_sign(claims: &Vec<Claim>, key: &Vec<u8>) -> (r: Result<String, jwt::Error>)
    ensures
        match r {
            Ok(t) => signed_token(claims.deep_view(), key@) == Some(t@),
            Err(_) => signed_token(claims.deep_view(), key@) is None,
        },
        r matches Ok(t) ==> (verified_claims(t@, key@) matches Some(back) && same_claims(
            back,
            claims.deep_view(),
        )),
        r matches Ok(t) ==> is_compact(t@),
{
    let mac: Hmac<Sha256> = Hmac::new_from_slice(key)?;
    let mut map: BTreeMap<String, Value> = BTreeMap::new();
    for c in claims {
        let v = match &c.value {
            ClaimValue::Text(s) => Value::from(s.clone()),
            ClaimValue::Number(n) => Value::from(*n),
            ClaimValue::Other => Value::Null,
        };
        map.insert(c.name.clone(), v);
    }
    map.sign_with_key(&mac)
}

/// `jwt::VerifyWithKey::verify_with_key` into a map from names to JSON
/// values, with an `Hmac<Sha256>` made of `key`. The claims come in the
/// map's order; a string is a `Text`, a number that fits `u64` a `Number`,
/// anything else `Other`.
///
/// Trusted: the result is a function of the token and the key.
#[verifier::external_body]
fn jwt_verify(token: &str, key: &Vec<u8>) -> (r: Result<Vec<Claim>, jwt::Error>)
    ensures
        match r {
            Ok(c) => verified_claims(token@, key@) == Some(c.deep_view()),
            Err(_) => verified_claims(token@, key@) is None,
        },
{
    let mac: Hmac<Sha256> = Hmac::new_from_slice(key)?;
    let map: BTreeMap<String, Value> = token.verify_with_key(&mac)?;
    let mut claims: Vec<Claim> = Vec::new();
    for (name, v) in map {
        let value = match (v.as_u64(), v) {
            (_, Value::String(s)) => ClaimValue::Text(s),
            (Some(n), _) => ClaimValue::Number(n),
            _ => ClaimValue::Other,
        };
        claims.push(Claim { name, value });
    }
    Ok(claims)
}

/// Signs a claim set under `key`.
///
/// The token is a function of the claims and the key. It verifies under
/// the same key and then reads back, name by name, as what was signed. It
/// is written in letters, digits, `-`, `_` and `.` alone.
/// A failure of the signer is reported as `Dependency`.
pub fn sign(claims: &Vec<Claim>, key: &Vec<u8>) -> (r: Result<String, Failure>)
    ensures
        match r {
            Ok(t) => signed_token(claims.deep_view(), key@) == Some(t@),
            Err(e) => e == Failure::Dependency && signed_token(claims.deep_view(), key@) is None,
        },
        r matches Ok(t) ==> (verified_claims(t@, key@) matches Some(back) && same_claims(
            back,
            claims.deep_view(),
        )),
        r matches Ok(t) ==> is_compact(t@),
{
    match jwt_sign(claims, key) {
        Ok(t) => Ok(t),
        Err(_) => Err(Failure::Dependency),
    }
}

/// Verifies a token under `key` and hands out its claims. It checks the
/// signature only: neither the subject nor the expiry.
///
/// Whatever does not verify is refused with `InvalidSignature`.
pub fn verify(token: &str, key: &Vec<u8>) -> (r: Result<Vec<Claim>, Failure>)
    ensures
        match r {
            Ok(c) => verified_claims(token@, key@) == Some(c.deep_view()),
            Err(e) => e == Failure::Auth(AuthError::InvalidSignature) && verified_claims(
                token@,
                key@,
            ) is None,
        },
{
    match jwt_verify(token, key) {
        Ok(c) => Ok(c),
        Err(_) => Err(Failure::Auth(AuthError::InvalidSignature)),
    }
}

} // verus!
