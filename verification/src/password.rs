//! Password hashing with Argon2: hashes in PHC string format, and their
//! verification.

use argon2::password_hash::{PasswordHash, PasswordHasher, PasswordVerifier, SaltString};
use argon2::Argon2;
use vstd::prelude::*;

use crate::failure::Failure;

verus! {

#[verifier::external_type_specification]
#[verifier::external_body]
pub struct ExPasswordHashError(argon2::password_hash::Error);

/// Whether `password` is the password that the PHC string `hash` was made of.
pub uninterp spec fn password_verifies(password: Seq<char>, hash: Seq<char>) -> bool;

/// The PHC string of `password` under the B64 salt `salt`, if there is one.
pub uninterp spec fn hashed_password(password: Seq<char>, salt: Seq<char>) -> Option<Seq<char>>;

/// `PasswordHash::new` on `hash`, then `Argon2::default().verify_password`
/// on the password's bytes. A string that does not parse verifies nothing.
///
/// Trusted: the answer is a function of the password and the hash string.
/// The cost of the check is what the hash string asks for: hand it hashes
/// that this library made.
#[verifier::external_body]
pub(crate) fn argon2_verify(password: &str, hash: &str) -> (r: bool)
    ensures
        r == password_verifies(password@, hash@),
{
    match PasswordHash::new(hash) {
        Ok(parsed) => Argon2::default().verify_password(password.as_bytes(), &parsed).is_ok(),
        Err(_) => false,
    }
}

/// `SaltString::from_b64` on `salt`, then `Argon2::default().hash_password`
/// on the password's bytes, written out as a PHC string.
///
/// Trusted: the result is a function of the password and the salt, and a
/// hash so made verifies the password that it was made of.
#[verifier::external_body]
fn argon2_hash(password: &str, salt: &str) -> (r: Result<String, argon2::password_hash::Error>)
    ensures
        match r {
            Ok(h) => hashed_password(password@, salt@) == Some(h@) && password_verifies(
                password@,
                h@,
            ),
            Err(_) => hashed_password(password@, salt@) is None,
        },
{
    let salt = SaltString::from_b64(salt)?;
    let hash = Argon2::default().hash_password(password.as_bytes(), &salt)?;
    Ok(hash.to_string())
}

/// Hashes a password under a salt that the caller drew at random. The hash
/// verifies the password. A salt or password that the hasher refuses is
/// reported as `Dependency`.
pub fn hash_password(password: &str, salt: &str) -> (r: Result<String, Failure>)
    ensures
        match r {
            Ok(h) => hashed_password(password@, salt@) == Some(h@) && password_verifies(
                password@,
                h@,
            ),
            Err(e) => e == Failure::Dependency && hashed_password(password@, salt@) is None,
        },
{
    match argon2_hash(password, salt) {
        Ok(h) => Ok(h),
        Err(_) => Err(Failure::Dependency),
    }
}

} // verus!
