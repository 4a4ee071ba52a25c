//! What users ask of their accounts: profiles, registration, login, token
//! refresh, address verification, password reset, and bans.
//!
//! Each function decides one request on what the caller has read from the
//! store, and says what to write back.

use vstd::prelude::*;

use crate::claims::{find_text, Claim, ClaimModel};
use crate::failure::{AuthError, Failure};
use crate::model::{Advert, Favorite, Rating, Review, Role, User};
use crate::password::{argon2_verify, hash_password, hashed_password, password_verifies};
use crate::rating::{list_at, rate_owner, rating_of, shows, Listing, MAX_REVIEWS};
use crate::session::{
    admit_refresh, carries_serial, check_claims, claimed_email, claims_verdict, is_grant, issue, issued,
    fresh_serial_gives_fresh_token, mail_claims, make_mail_claims, reads_back, refresh_verdict,
    reset_subject, serial_is_free, serial_taken, stays_good, verification_subject, Context,
    LoginResponse,
    ACCESS_EXPIRATION, LATEST_ISSUE, RESET_EXPIRATION,
};
use crate::text::chars_of;
use crate::token::{sign, signed_token, verified_claims, verify};

verus! {

/// The fewest characters of a password.
pub const MIN_PASSWORD_LENGTH: usize = 8;

/// A user's public page: their rating, their adverts and the adverts that
/// they reviewed, as the viewer sees them.
#[derive(Debug)]
pub struct Profile<'a> {
    /// The mean of all reviews on the user's adverts.
    pub rating: Rating,
    /// The user's adverts.
    pub adverts: Vec<Listing<'a>>,
    /// The positions in `adverts` of those that have a review.
    pub adverts_with_reviews: Vec<usize>,
    /// The adverts that the user has reviewed.
    pub reviewed_adverts: Vec<Listing<'a>>,
}

/// The advert has a review.
pub open spec fn is_reviewed(reviews: Seq<Review>, advert_id: i32) -> bool {
    exists|k: int| 0 <= k < reviews.len() && (#[trigger] reviews[k]).advert_id == advert_id
}

/// The advert has a review by `user`.
pub open spec fn is_reviewed_by(reviews: Seq<Review>, advert_id: i32, user: i32) -> bool {
    exists|k: int|
        0 <= k < reviews.len() && (#[trigger] reviews[k]).advert_id == advert_id && reviews[k].user_id
            == user
}

/// Tests [`is_reviewed`].
pub fn has_review(reviews: &Vec<Review>, advert_id: i32) -> (r: bool)
    ensures
        r == is_reviewed(reviews@, advert_id),
{
    let mut i: usize = 0;
    while i < reviews.len()
        invariant
            i <= reviews@.len(),
            forall|k: int| 0 <= k < i ==> (#[trigger] reviews@[k]).advert_id != advert_id,
        decreases reviews@.len() - i,
    {
        if reviews[i].advert_id == advert_id {
            return true;
        }
        i += 1;
    }
    false
}

/// Tests [`is_reviewed_by`].
pub fn has_review_by(reviews: &Vec<Review>, advert_id: i32, user: i32) -> (r: bool)
    ensures
        r == is_reviewed_by(reviews@, advert_id, user),
{
    let mut i: usize = 0;
    while i < reviews.len()
        invariant
            i <= reviews@.len(),
            forall|k: int|
                0 <= k < i ==> !((#[trigger] reviews@[k]).advert_id == advert_id && reviews@[k].user_id
                    == user),
        decreases reviews@.len() - i,
    {
        if reviews[i].advert_id == advert_id && reviews[i].user_id == user {
            return true;
        }
        i += 1;
    }
    false
}

/// The positions below `n` of the adverts of `owner` in `pool`, ascending.
pub open spec fn owned_positions(pool: Seq<Advert>, owner: i32, n: nat) -> Seq<usize>
    decreases n,
{
    if n == 0 {
        Seq::empty()
    } else {
        let before = owned_positions(pool, owner, (n - 1) as nat);
        if pool[n - 1].user_id == owner {
            before.push((n - 1) as usize)
        } else {
            before
        }
    }
}

/// The positions below `n` in the list `at` of the adverts that have a
/// review, ascending.
pub open spec fn reviewed_among(pool: Seq<Advert>, at: Seq<usize>, reviews: Seq<Review>, n: nat) -> Seq<
    usize,
>
    decreases n,
{
    if n == 0 {
        Seq::empty()
    } else {
        let before = reviewed_among(pool, at, reviews, (n - 1) as nat);
        if is_reviewed(reviews, pool[at[n - 1] as int].id) {
            before.push((n - 1) as usize)
        } else {
            before
        }
    }
}

/// The positions below `n` of the adverts in `pool` that `user` has
/// reviewed, ascending.
pub open spec fn reviewed_by(pool: Seq<Advert>, reviews: Seq<Review>, user: i32, n: nat) -> Seq<
    usize,
>
    decreases n,
{
    if n == 0 {
        Seq::empty()
    } else {
        let before = reviewed_by(pool, reviews, user, (n - 1) as nat);
        if is_reviewed_by(reviews, pool[n - 1].id, user) {
            before.push((n - 1) as usize)
        } else {
            before
        }
    }
}

/// `p` is the page of `owner`, as `viewer` sees it, drawn from all adverts
/// and all reviews.
pub open spec fn is_profile_of(
    p: Profile,
    owner: i32,
    pool: Seq<Advert>,
    reviews: Seq<Review>,
    viewer: Option<i32>,
    favorites: Seq<Favorite>,
) -> bool {
    let mine = owned_positions(pool, owner, pool.len());
    &&& p.rating == rating_of(owner, pool, reviews)
    &&& shows(p.adverts@, pool, mine, viewer, favorites, pool, reviews)
    &&& p.adverts_with_reviews@ == reviewed_among(pool, mine, reviews, mine.len())
    &&& shows(
        p.reviewed_adverts@,
        pool,
        reviewed_by(pool, reviews, owner, pool.len()),
        viewer,
        favorites,
        pool,
        reviews,
    )
}

/// Queries on users.
#[derive(Debug)]
pub struct UserQuery;

impl Default for UserQuery {
    fn default() -> (q: UserQuery) {
        UserQuery
    }
}

impl UserQuery {
    /// The public page of a user, drawn from all adverts and all reviews.
    /// `NotFound` without the user.
    pub fn user<'a>(
        &self,
        user: Option<&User>,
        pool: &'a Vec<Advert>,
        reviews: &Vec<Review>,
        viewer: Option<i32>,
        favorites: &Vec<Favorite>,
    ) -> (r: Result<Profile<'a>, Failure>)
        requires
            reviews@.len() <= MAX_REVIEWS,
        ensures
            match user {
                None => r matches Err(e) && e == Failure::NotFound,
                Some(u) => r matches Ok(p) && is_profile_of(
                    p,
                    u.id,
                    pool@,
                    reviews@,
                    viewer,
                    favorites@,
                ),
            },
    {
        let u = match user {
            Some(u) => u,
            None => {
                return Err(Failure::NotFound);
            },
        };
        let rating = rate_owner(u.id, pool, reviews);
        let mut mine: Vec<usize> = Vec::new();
        let mut theirs: Vec<usize> = Vec::new();
        let mut i: usize = 0;
        while i < pool.len()
            invariant
                i <= pool@.len(),
                mine@ == owned_positions(pool@, u.id, i as nat),
                theirs@ == reviewed_by(pool@, reviews@, u.id, i as nat),
                forall|k: int| 0 <= k < mine@.len() ==> (#[trigger] mine@[k]) < i,
                forall|k: int| 0 <= k < theirs@.len() ==> (#[trigger] theirs@[k]) < i,
            decreases pool@.len() - i,
        {
            if pool[i].user_id == u.id {
                mine.push(i);
            }
            if has_review_by(reviews, pool[i].id, u.id) {
                theirs.push(i);
            }
            i += 1;
        }
        let mut with_reviews: Vec<usize> = Vec::new();
        let mut k: usize = 0;
        while k < mine.len()
            invariant
                k <= mine@.len(),
                forall|j: int| 0 <= j < mine@.len() ==> (#[trigger] mine@[j]) < pool@.len(),
                with_reviews@ == reviewed_among(pool@, mine@, reviews@, k as nat),
            decreases mine@.len() - k,
        {
            if has_review(reviews, pool[mine[k]].id) {
                with_reviews.push(k);
            }
            k += 1;
        }
        Ok(
            Profile {
                rating,
                adverts: list_at(pool, &mine, viewer, favorites, pool, reviews),
                adverts_with_reviews: with_reviews,
                reviewed_adverts: list_at(pool, &theirs, viewer, favorites, pool, reviews),
            },
        )
    }

    /// The caller's own page. `caller` is what
    /// [`crate::session::authorize`] answered; its failure is handed on.
    pub fn me<'a>(
        &self,
        caller: Result<i32, Failure>,
        user: Option<&User>,
        pool: &'a Vec<Advert>,
        reviews: &Vec<Review>,
        favorites: &Vec<Favorite>,
    ) -> (r: Result<Profile<'a>, Failure>)
        requires
            reviews@.len() <= MAX_REVIEWS,
        ensures
            match (caller, user) {
                (Err(e), _) => r matches Err(f) && f == e,
                (Ok(id), None) => r matches Err(f) && f == Failure::NotFound,
                (Ok(id), Some(u)) => if u.id != id {
                    r matches Err(f) && f == Failure::NotFound
                } else {
                    r matches Ok(p) && is_profile_of(
                        p,
                        id,
                        pool@,
                        reviews@,
                        Some(id),
                        favorites@,
                    )
                },
            },
    {
        let id = match caller {
            Ok(id) => id,
            Err(e) => {
                return Err(e);
            },
        };
        match user {
            Some(u) => {
                if u.id != id {
                    return Err(Failure::NotFound);
                }
                self.user(user, pool, reviews, Some(id), favorites)
            },
            None => Err(Failure::NotFound),
        }
    }

    /// Whether a password-reset token is still good for someone.
    ///
    /// `Ok(false)` for a token of another kind, or one that expires at `now`
    /// or before; a token without an expiry counts as long expired. A good
    /// token without an address is `Invalid`. Otherwise, whether the store
    /// has a user with the token's address.
    pub fn validate_reset_token(
        &self,
        claims: &Vec<Claim>,
        now: u64,
        user_exists: bool,
    ) -> (r: Result<bool, Failure>)
        ensures
            r == reset_token_verdict(claims.deep_view(), now, user_exists),
    {
        match check_claims(claims, "reset", now) {
            Ok(()) => {},
            Err(_) => {
                return Ok(false);
            },
        }
        match crate::claims::find_number(claims, "exp") {
            Some(exp) => {
                if exp <= now {
                    return Ok(false);
                }
            },
            None => {
                return Ok(false);
            },
        }
        match find_text(claims, "email") {
            Some(_) => Ok(user_exists),
            None => Err(Failure::Auth(AuthError::Invalid)),
        }
    }
}

/// What [`UserQuery::validate_reset_token`] answers.
pub open spec fn reset_token_verdict(
    claims: Seq<(Seq<char>, ClaimModel)>,
    now: u64,
    user_exists: bool,
) -> Result<bool, Failure> {
    if claims_verdict(claims, reset_subject(), now) is Err {
        Ok(false)
    } else if !(crate::claims::number_named(claims, "exp"@) matches Some(exp) && exp > now) {
        Ok(false)
    } else if claimed_email(claims) is None {
        Err(Failure::Auth(AuthError::Invalid))
    } else {
        Ok(user_exists)
    }
}

/// What a new account starts with: the hash to store and the token to mail.
#[derive(Debug)]
pub struct Registration {
    pub password_hash: String,
    pub verification_token: String,
}

/// Whom a login lets in: a known user with a password that verifies, who is
/// not banned. An unknown user, an account without a password and a wrong
/// password are all `InvalidCredentials`; a banned user is `Forbidden`.
pub open spec fn login_verdict(user: Option<User>, password_ok: bool) -> Result<i32, Failure> {
    match user {
        None => Err(Failure::Auth(AuthError::InvalidCredentials)),
        Some(u) => if u.password_hash is None || !password_ok {
            Err(Failure::Auth(AuthError::InvalidCredentials))
        } else if u.banned {
            Err(Failure::Auth(AuthError::Forbidden))
        } else {
            Ok(u.id)
        },
    }
}

/// The password verifies against the hash that the user has.
pub open spec fn knows_password(user: Option<User>, password: Seq<char>) -> bool {
    user matches Some(u) && u.password_hash matches Some(h) && password_verifies(password, h@)
}

/// Tests [`login_verdict`], given whether the password verified.
pub fn admit_login(user: Option<&User>, password_ok: bool) -> (r: Result<i32, Failure>)
    ensures
        r == login_verdict(
            match user {
                Some(u) => Some(*u),
                None => None,
            },
            password_ok,
        ),
{
    match user {
        None => Err(Failure::Auth(AuthError::InvalidCredentials)),
        Some(u) => {
            if u.password_hash.is_none() || !password_ok {
                Err(Failure::Auth(AuthError::InvalidCredentials))
            } else if u.banned {
                Err(Failure::Auth(AuthError::Forbidden))
            } else {
                Ok(u.id)
            }
        },
    }
}

/// Tests [`knows_password`].
pub fn check_password(user: Option<&User>, password: &str) -> (r: bool)
    ensures
        r == knows_password(
            match user {
                Some(u) => Some(*u),
                None => None,
            },
            password@,
        ),
{
    match user {
        Some(u) => match &u.password_hash {
            Some(h) => argon2_verify(password, h.as_str()),
            None => false,
        },
        None => false,
    }
}

/// The text of an optional address; empty without one.
pub open spec fn email_text(email: Option<String>) -> Seq<char> {
    match email {
        Some(e) => e@,
        None => Seq::empty(),
    }
}

/// The address of a user, or the empty text without a user or an address.
pub open spec fn address_of(user: Option<User>) -> Seq<char> {
    match user {
        Some(u) => email_text(u.email),
        None => Seq::empty(),
    }
}

/// Computes [`address_of`].
pub fn email_of(user: Option<&User>) -> (email: String)
    ensures
        email@ == address_of(
            match user {
                Some(u) => Some(*u),
                None => None,
            },
        ),
{
    match user {
        Some(u) => match &u.email {
            Some(e) => e.clone(),
            None => String::new(),
        },
        None => String::new(),
    }
}

/// The name to greet a user by: their name, else their company's, else
/// `User`.
pub open spec fn recipient_of(u: User) -> Seq<char> {
    match u.name {
        Some(n) => n@,
        None => match u.company_name {
            Some(c) => c@,
            None => "User"@,
        },
    }
}

/// Computes [`recipient_of`].
pub fn recipient(u: &User) -> (name: String)
    ensures
        name@ == recipient_of(*u),
{
    match &u.name {
        Some(n) => n.clone(),
        None => match &u.company_name {
            Some(c) => c.clone(),
            None => "User".to_owned(),
        },
    }
}

/// A field after an edit: the new value where one is given, else the old.
pub open spec fn edited(old: Option<String>, new: Option<String>) -> Option<String> {
    if new is Some {
        new
    } else {
        old
    }
}

/// Mutations on users.
#[derive(Debug)]
pub struct UserMutation;

impl Default for UserMutation {
    fn default() -> (m: UserMutation) {
        UserMutation
    }
}

impl UserMutation {
    /// Opens an account for `email`: hashes the password under `salt` and
    /// signs the token to mail for verifying the address.
    ///
    /// `Validation` for a password of fewer than `MIN_PASSWORD_LENGTH`
    /// characters and for an address that `existing` shows is taken;
    /// `Dependency` where hasher or signer fails.
    pub fn register(
        &self,
        ctx: &Context,
        existing: Option<&User>,
        email: &str,
        password: &str,
        salt: &str,
        now: u64,
    ) -> (r: Result<Registration, Failure>)
        requires
            now <= LATEST_ISSUE,
        ensures
            if password@.len() < MIN_PASSWORD_LENGTH {
                r matches Err(e) && e == Failure::Validation
            } else {
                match hashed_password(password@, salt@) {
                    None => r matches Err(e) && e == Failure::Dependency,
                    Some(hash) => if existing is Some {
                        r matches Err(e) && e == Failure::Validation
                    } else {
                        match signed_token(
                            mail_claims(
                                verification_subject(),
                                email@,
                                (now + ACCESS_EXPIRATION * 60) as u64,
                            ),
                            ctx.email_key@,
                        ) {
                            None => r matches Err(e) && e == Failure::Dependency,
                            Some(token) => r matches Ok(reg) && reg.password_hash@ == hash
                                && reg.verification_token@ == token && password_verifies(
                                password@,
                                reg.password_hash@,
                            ),
                        }
                    },
                }
            },
    {
        if chars_of(password).len() < MIN_PASSWORD_LENGTH {
            return Err(Failure::Validation);
        }
        let password_hash = match hash_password(password, salt) {
            Ok(h) => h,
            Err(e) => {
                return Err(e);
            },
        };
        if existing.is_some() {
            return Err(Failure::Validation);
        }
        let claims = make_mail_claims("verify", email, now + ACCESS_EXPIRATION * 60);
        match sign(&claims, &ctx.email_key) {
            Ok(verification_token) => Ok(Registration { password_hash, verification_token }),
            Err(e) => Err(e),
        }
    }

    /// Logs a user in: checks the password against the stored hash and
    /// issues a fresh pair of tokens under `serial`. The caller puts the
    /// response's [`LoginResponse::record`] on record, which ends every
    /// earlier session: the new refresh token is never the one that was on
    /// record.
    ///
    /// `user` is the user found by address or phone; `cached` is what is on
    /// record for them; `serial` is drawn anew by the caller. Whom the login
    /// lets in is what [`login_verdict`] says. `Validation` for a serial that
    /// the token on record carries already; `Dependency` where the signer
    /// fails. A user without an address gets tokens with an empty address.
    pub fn login(
        &self,
        ctx: &Context,
        user: Option<&User>,
        password: &str,
        cached: Option<&String>,
        now: u64,
        serial: u64,
    ) -> (r: Result<LoginResponse, Failure>)
        requires
            now <= LATEST_ISSUE,
        ensures
            ({
                let who = match user {
                    Some(u) => Some(*u),
                    None => None,
                };
                let slot = match cached {
                    Some(t) => Some(t@),
                    None => None,
                };
                match login_verdict(who, knows_password(who, password@)) {
                    Err(e) => r matches Err(f) && f == e,
                    Ok(id) => if !serial_is_free(*ctx, slot, serial) {
                        r matches Err(f) && f == Failure::Validation
                    } else {
                        is_grant(
                            r,
                            id,
                            issued(*ctx, id, email_text(who->0.email), now, serial),
                        )
                    },
                }
            }),
            r matches Ok(resp) ==> user matches Some(u) && reads_back(
                *ctx,
                resp,
                email_text(u.email),
                now,
                serial,
            ),
            r matches Ok(resp) ==> (cached matches Some(t) ==> resp.refresh_token@ != t@),
            r matches Ok(resp) ==> stays_good(*ctx, resp, now),
    {
        let password_ok = check_password(user, password);
        let id = match admit_login(user, password_ok) {
            Ok(id) => id,
            Err(e) => {
                return Err(e);
            },
        };
        if serial_taken(ctx, cached, serial) {
            return Err(Failure::Validation);
        }
        let email = email_of(user);
        let r = issue(ctx, id, email.as_str(), now, serial);
        proof {
            if r is Ok && cached is Some {
                fresh_serial_gives_fresh_token(*ctx, r->Ok_0, email@, now, serial, cached->0@);
            }
        }
        r
    }

    /// Changes the caller's profile after checking their password. Each field
    /// takes the new value where one is given and keeps the old otherwise.
    ///
    /// `caller` is what `authorize` answered; its failure is handed on.
    /// `Invalid` where the store has no such user, `InvalidCredentials` for
    /// a wrong password or an account without one.
    pub fn edit(
        &self,
        caller: Result<i32, Failure>,
        user: Option<User>,
        password: &str,
        name: Option<String>,
        surname: Option<String>,
        company_name: Option<String>,
        phone: Option<String>,
        avatar_url: Option<String>,
    ) -> (r: Result<User, Failure>)
        ensures
            match (caller, user) {
                (Err(e), _) => r matches Err(f) && f == e,
                (Ok(id), None) => r matches Err(f) && f == Failure::Auth(AuthError::Invalid),
                (Ok(id), Some(u)) => if u.id != id {
                    r matches Err(f) && f == Failure::Auth(AuthError::Invalid)
                } else if !knows_password(user, password@) {
                    r matches Err(f) && f == Failure::Auth(AuthError::InvalidCredentials)
                } else {
                    r matches Ok(v) && v == (User {
                        name: edited(u.name, name),
                        surname: edited(u.surname, surname),
                        company_name: edited(u.company_name, company_name),
                        phone: edited(u.phone, phone),
                        avatar_url: edited(u.avatar_url, avatar_url),
                        ..u
                    })
                },
            },
    {
        let id = match caller {
            Ok(id) => id,
            Err(e) => {
                return Err(e);
            },
        };
        let mut u = match user {
            Some(u) => u,
            None => {
                return Err(Failure::Auth(AuthError::Invalid));
            },
        };
        if u.id != id {
            return Err(Failure::Auth(AuthError::Invalid));
        }
        if !check_password(Some(&u), password) {
            return Err(Failure::Auth(AuthError::InvalidCredentials));
        }
        if name.is_some() {
            u.name = name;
        }
        if surname.is_some() {
            u.surname = surname;
        }
        if company_name.is_some() {
            u.company_name = company_name;
        }
        if phone.is_some() {
            u.phone = phone;
        }
        if avatar_url.is_some() {
            u.avatar_url = avatar_url;
        }
        Ok(u)
    }

    /// Trades a refresh token for a fresh pair of tokens. It succeeds only
    /// for the token on record for its user; the caller then puts the
    /// response's [`LoginResponse::record`] on record, which revokes the
    /// token just used.
    ///
    /// `user` is the user that [`crate::session::refresh_subject`] names, as
    /// the store has them; `cached` is what is on record for that user;
    /// `serial` is drawn anew by the caller. Who is let back in is what
    /// [`refresh_verdict`] says. `Validation` for a serial that the presented
    /// token carries already: the response never holds the token presented.
    pub fn refresh(
        &self,
        ctx: &Context,
        refresh_token: &str,
        user: Option<&User>,
        cached: Option<&String>,
        now: u64,
        serial: u64,
    ) -> (r: Result<LoginResponse, Failure>)
        requires
            now <= LATEST_ISSUE,
        ensures
            ({
                let who = match user {
                    Some(u) => Some(*u),
                    None => None,
                };
                let slot = match cached {
                    Some(t) => Some(t@),
                    None => None,
                };
                match refresh_verdict(
                    verified_claims(refresh_token@, ctx.refresh_key@),
                    now,
                    who,
                    slot,
                    refresh_token@,
                ) {
                    Err(e) => r matches Err(f) && f == e,
                    Ok(id) => if !serial_is_free(*ctx, Some(refresh_token@), serial) {
                        r matches Err(f) && f == Failure::Validation
                    } else {
                        is_grant(
                            r,
                            id,
                            issued(*ctx, id, email_text(who->0.email), now, serial),
                        )
                    },
                }
            }),
            r matches Ok(resp) ==> user matches Some(u) && cached matches Some(t) && t@
                == refresh_token@ && reads_back(*ctx, resp, email_text(u.email), now, serial),
            r matches Ok(resp) ==> resp.refresh_token@ != refresh_token@,
            r matches Ok(resp) ==> stays_good(*ctx, resp, now),
    {
        let verified = verify(refresh_token, &ctx.refresh_key);
        let id = match admit_refresh(&verified, now, user, cached, refresh_token) {
            Ok(id) => id,
            Err(e) => {
                return Err(e);
            },
        };
        let taken = match &verified {
            Ok(claims) => carries_serial(claims, serial),
            Err(_) => false,
        };
        if taken {
            return Err(Failure::Validation);
        }
        let email = email_of(user);
        let r = issue(ctx, id, email.as_str(), now, serial);
        proof {
            if r is Ok {
                fresh_serial_gives_fresh_token(*ctx, r->Ok_0, email@, now, serial, refresh_token@);
            }
        }
        r
    }

    /// Confirms an address with the token that was mailed to it, given the
    /// claims that the token verified to under the mail key and the user
    /// with the token's address. Hands out the id of the user to mark as
    /// verified.
    ///
    /// Subject and expiry are checked first; a token without an address and
    /// an address without a user are `Invalid`; `Validation` where the
    /// address is verified already.
    pub fn verify_email(&self, claims: &Vec<Claim>, user: Option<&User>, now: u64) -> (r: Result<
        i32,
        Failure,
    >)
        ensures
            r == match claims_verdict(claims.deep_view(), verification_subject(), now) {
                Err(e) => Err::<i32, Failure>(e),
                Ok(()) => if claimed_email(claims.deep_view()) is None {
                    Err(Failure::Auth(AuthError::Invalid))
                } else {
                    match user {
                        None => Err(Failure::Auth(AuthError::Invalid)),
                        Some(u) => if u.email_verified {
                            Err(Failure::Validation)
                        } else {
                            Ok(u.id)
                        },
                    }
                },
            },
    {
        match check_claims(claims, "verify", now) {
            Ok(()) => {},
            Err(e) => {
                return Err(e);
            },
        }
        if find_text(claims, "email").is_none() {
            return Err(Failure::Auth(AuthError::Invalid));
        }
        match user {
            None => Err(Failure::Auth(AuthError::Invalid)),
            Some(u) => if u.email_verified {
                Err(Failure::Validation)
            } else {
                Ok(u.id)
            },
        }
    }

    /// Signs a new token to mail to the caller for verifying their address.
    ///
    /// `caller` is what `authorize` answered; its failure is handed on.
    /// `Invalid` where the store has no such user, `Validation` where the
    /// address is verified already, `Dependency` where the signer fails.
    pub fn resend_email(
        &self,
        ctx: &Context,
        caller: Result<i32, Failure>,
        user: Option<&User>,
        now: u64,
    ) -> (r: Result<String, Failure>)
        requires
            now <= LATEST_ISSUE,
        ensures
            match (caller, user) {
                (Err(e), _) => r matches Err(f) && f == e,
                (Ok(id), None) => r matches Err(f) && f == Failure::Auth(AuthError::Invalid),
                (Ok(id), Some(u)) => if u.id != id {
                    r matches Err(f) && f == Failure::Auth(AuthError::Invalid)
                } else if u.email_verified {
                    r matches Err(f) && f == Failure::Validation
                } else {
                    match signed_token(
                        mail_claims(
                            verification_subject(),
                            match u.email {
                                Some(e) => e@,
                                None => "default_email"@,
                            },
                            (now + ACCESS_EXPIRATION * 60) as u64,
                        ),
                        ctx.email_key@,
                    ) {
                        Some(token) => r matches Ok(t) && t@ == token,
                        None => r matches Err(f) && f == Failure::Dependency,
                    }
                },
            },
    {
        let id = match caller {
            Ok(id) => id,
            Err(e) => {
                return Err(e);
            },
        };
        let u = match user {
            Some(u) => u,
            None => {
                return Err(Failure::Auth(AuthError::Invalid));
            },
        };
        if u.id != id {
            return Err(Failure::Auth(AuthError::Invalid));
        }
        if u.email_verified {
            return Err(Failure::Validation);
        }
        let claims = match &u.email {
            Some(e) => make_mail_claims("verify", e.as_str(), now + ACCESS_EXPIRATION * 60),
            None => make_mail_claims("verify", "default_email", now + ACCESS_EXPIRATION * 60),
        };
        sign(&claims, &ctx.email_key)
    }

    /// Bans a user, or lifts their ban: hands out the new state of the
    /// target's ban. Only an admin may do this.
    ///
    /// `caller` is what `authorize` answered; its failure is handed on.
    /// `Invalid` where the store has no such caller, `Forbidden` for a caller
    /// who is no admin, `NotFound` without the target.
    pub fn ban_user(
        &self,
        caller: Result<i32, Failure>,
        user: Option<&User>,
        target: Option<&User>,
    ) -> (r: Result<bool, Failure>)
        ensures
            r == match (caller, user) {
                (Err(e), _) => Err::<bool, Failure>(e),
                (Ok(id), None) => Err(Failure::Auth(AuthError::Invalid)),
                (Ok(id), Some(u)) => if u.id != id {
                    Err(Failure::Auth(AuthError::Invalid))
                } else if u.role != Role::Admin {
                    Err(Failure::Auth(AuthError::Forbidden))
                } else {
                    match target {
                        None => Err(Failure::NotFound),
                        Some(t) => Ok(!t.banned),
                    }
                },
            },
    {
        let id = match caller {
            Ok(id) => id,
            Err(e) => {
                return Err(e);
            },
        };
        let u = match user {
            Some(u) => u,
            None => {
                return Err(Failure::Auth(AuthError::Invalid));
            },
        };
        if u.id != id {
            return Err(Failure::Auth(AuthError::Invalid));
        }
        match u.role {
            Role::Admin => {},
            _ => {
                return Err(Failure::Auth(AuthError::Forbidden));
            },
        }
        match target {
            None => Err(Failure::NotFound),
            Some(t) => Ok(!t.banned),
        }
    }

    /// Signs the token to mail to a user who forgot their password, valid
    /// for `RESET_EXPIRATION` minutes. `NotFound` without a user of that
    /// address, `Dependency` where the signer fails.
    pub fn forgot_password(
        &self,
        ctx: &Context,
        user: Option<&User>,
        email: &str,
        now: u64,
    ) -> (r: Result<String, Failure>)
        requires
            now <= LATEST_ISSUE,
        ensures
            match user {
                None => r matches Err(f) && f == Failure::NotFound,
                Some(_) => match signed_token(
                    mail_claims(reset_subject(), email@, (now + RESET_EXPIRATION * 60) as u64),
                    ctx.email_key@,
                ) {
                    Some(token) => r matches Ok(t) && t@ == token,
                    None => r matches Err(f) && f == Failure::Dependency,
                },
            },
    {
        if user.is_none() {
            return Err(Failure::NotFound);
        }
        let claims = make_mail_claims("reset", email, now + RESET_EXPIRATION * 60);
        sign(&claims, &ctx.email_key)
    }

    /// Sets a new password with the token that was mailed for it, given the
    /// claims that the token verified to under the mail key and the user
    /// with the token's address. Hands out the hash to store.
    ///
    /// Subject and expiry are checked first; a token without an address is
    /// `Invalid`; `NotFound` without the user; `Dependency` where the
    /// hasher fails.
    pub fn reset_password(
        &self,
        claims: &Vec<Claim>,
        user: Option<&User>,
        new_password: &str,
        salt: &str,
        now: u64,
    ) -> (r: Result<String, Failure>)
        ensures
            match claims_verdict(claims.deep_view(), reset_subject(), now) {
                Err(e) => r matches Err(f) && f == e,
                Ok(()) => if claimed_email(claims.deep_view()) is None {
                    r matches Err(f) && f == Failure::Auth(AuthError::Invalid)
                } else if user is None {
                    r matches Err(f) && f == Failure::NotFound
                } else {
                    match hashed_password(new_password@, salt@) {
                        Some(hash) => r matches Ok(h) && h@ == hash && password_verifies(
                            new_password@,
                            h@,
                        ),
                        None => r matches Err(f) && f == Failure::Dependency,
                    }
                },
            },
    {
        match check_claims(claims, "reset", now) {
            Ok(()) => {},
            Err(e) => {
                return Err(e);
            },
        }
        if find_text(claims, "email").is_none() {
            return Err(Failure::Auth(AuthError::Invalid));
        }
        if user.is_none() {
            return Err(Failure::NotFound);
        }
        hash_password(new_password, salt)
    }
}

} // verus!
