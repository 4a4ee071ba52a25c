//! The failures that the library reports.

use vstd::prelude::*;

verus! {

/// Why a caller was not let through.
#[derive(Clone, Copy, Debug, PartialEq, Eq, Structural)]
pub enum AuthError {
    /// No credential came with a request that needs one.
    NotAuthenticated,
    /// Unknown identity, wrong password, or an account without a password.
    InvalidCredentials,
    /// The token's signature does not verify under the key.
    InvalidSignature,
    /// The token verifies but its claims are missing, ill-typed or of another kind.
    Invalid,
    /// The token's expiry has passed.
    Expired,
    /// The refresh token is not the one on record for its user.
    Revoked,
    /// The caller is known but may not do this.
    Forbidden,
}

/// Every failure of the library.
#[derive(Clone, Copy, Debug, PartialEq, Eq, Structural)]
pub enum Failure {
    /// Authentication or authorization failed.
    Auth(AuthError),
    /// The user, advert or favorite that the request names does not exist.
    NotFound,
    /// The input is malformed or breaks a uniqueness rule.
    Validation,
    /// A collaborator (signer, hasher, mail sender, cache) failed.
    Dependency,
}

impl Failure {
    /// A short text for the failure, fit to hand to a client.
    pub fn message(&self) -> (text: &'static str)
        ensures
            text@ == failure_text(*self),
    {
        match self {
            Failure::Auth(AuthError::NotAuthenticated) => "you are not logged in",
            Failure::Auth(AuthError::InvalidCredentials) => "wrong email or password",
            Failure::Auth(AuthError::InvalidSignature) => "invalid signature",
            Failure::Auth(AuthError::Invalid) => "wrong token",
            Failure::Auth(AuthError::Expired) => "token expired: you are not logged in",
            Failure::Auth(AuthError::Revoked) => "token revoked",
            Failure::Auth(AuthError::Forbidden) => "you do not have the rights to do this",
            Failure::NotFound => "not found",
            Failure::Validation => "invalid input",
            Failure::Dependency => "a service is unavailable",
        }
    }
}

/// The text of each failure.
pub open spec fn failure_text(e: Failure) -> Seq<char> {
    match e {
        Failure::Auth(AuthError::NotAuthenticated) => "you are not logged in"@,
        Failure::Auth(AuthError::InvalidCredentials) => "wrong email or password"@,
        Failure::Auth(AuthError::InvalidSignature) => "invalid signature"@,
        Failure::Auth(AuthError::Invalid) => "wrong token"@,
        Failure::Auth(AuthError::Expired) => "token expired: you are not logged in"@,
        Failure::Auth(AuthError::Revoked) => "token revoked"@,
        Failure::Auth(AuthError::Forbidden) => "you do not have the rights to do this"@,
        Failure::NotFound => "not found"@,
        Failure::Validation => "invalid input"@,
        Failure::Dependency => "a service is unavailable"@,
    }
}

} // verus!
