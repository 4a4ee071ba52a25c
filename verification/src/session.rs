//! The session authority: who a token speaks for, and how refresh tokens
//! are issued, rotated and revoked.
//!
//! A user has at most one live refresh token: the one on record for them in
//! a cache that the caller keeps, under the user's id. The functions here
//! decide; the caller reads the record before and writes it after.
//!
//! Every pair of tokens carries a serial that the caller draws anew. A login
//! refuses the serial of the token on record, a refresh that of the token
//! presented: so the token that goes on record is never the one that it
//! replaces, whatever the clock says.

use vstd::prelude::*;

use crate::claims::{
    claim_named, find_claim, find_number, find_text, number_named, text_named, Claim, ClaimModel,
    ClaimValue,
};
use crate::failure::{AuthError, Failure};
use crate::model::User;
use crate::text::{
    decimal_i32, decimal_text, format_i32, parse_i32, remove_all, without_pattern,
    without_pattern_keeps,
};
use crate::token::{
    is_compact, is_token_char, same_claims, sign, signed_token, verified_claims, verify, Token,
};

verus! {

/// Minutes that an access token, and a token mailed to verify an address,
/// stays valid.
pub const ACCESS_EXPIRATION: u64 = 100;

/// Minutes that a refresh token stays valid.
pub const REFRESH_EXPIRATION: u64 = 180;

/// Minutes that a password-reset token stays valid.
pub const RESET_EXPIRATION: u64 = 60;

/// The latest time, in seconds since the epoch, at which tokens are issued:
/// the last at which the expiry of a refresh token is still a `u64`.
pub const LATEST_ISSUE: u64 = u64::MAX - REFRESH_EXPIRATION * 60;

/// The keys and secrets that the rules work with.
#[derive(Debug)]
pub struct Context {
    pub access_key: Vec<u8>,
    pub refresh_key: Vec<u8>,
    pub mailersend_token: String,
    pub email_key: Vec<u8>,
}

impl Context {
    pub fn new(
        access_key: Vec<u8>,
        refresh_key: Vec<u8>,
        mailersend_token: String,
        email_key: Vec<u8>,
    ) -> (ctx: Self)
        ensures
            ctx.access_key == access_key,
            ctx.refresh_key == refresh_key,
            ctx.mailersend_token == mailersend_token,
            ctx.email_key == email_key,
    {
        Self { access_key, refresh_key, mailersend_token, email_key }
    }
}

/// The kinds of token. Each kind has a subject of its own, so that a token
/// of one kind is never good as one of another.
#[derive(Clone, Copy, Debug, PartialEq, Eq, Structural)]
pub enum TokenKind {
    Access,
    Refresh,
    EmailVerification,
    PasswordReset,
}

/// The subject of access tokens.
pub open spec fn access_subject() -> Seq<char> {
    "someone"@
}

/// The subject of refresh tokens.
pub open spec fn renewal_subject() -> Seq<char> {
    "refresh"@
}

/// The subject of the tokens that are mailed to verify an address.
pub open spec fn verification_subject() -> Seq<char> {
    "verify"@
}

/// The subject of password-reset tokens.
pub open spec fn reset_subject() -> Seq<char> {
    "reset"@
}

/// The subject that marks a kind of token.
pub open spec fn subject_of(kind: TokenKind) -> Seq<char> {
    match kind {
        TokenKind::Access => access_subject(),
        TokenKind::Refresh => renewal_subject(),
        TokenKind::EmailVerification => verification_subject(),
        TokenKind::PasswordReset => reset_subject(),
    }
}

/// Gives the subject of a kind of token.
pub fn subject(kind: TokenKind) -> (text: &'static str)
    ensures
        text@ == subject_of(kind),
{
    match kind {
        TokenKind::Access => "someone",
        TokenKind::Refresh => "refresh",
        TokenKind::EmailVerification => "verify",
        TokenKind::PasswordReset => "reset",
    }
}

/// The claims of a session token: subject, the user's id in decimal, the
/// user's address, the expiry, and the serial that tells this token from
/// every other one of its user.
pub open spec fn session_claims(
    subject: Seq<char>,
    user_id: i32,
    email: Seq<char>,
    exp: u64,
    serial: u64,
) -> Seq<(Seq<char>, ClaimModel)> {
    seq![
        ("sub"@, ClaimModel::Text(subject)),
        ("id"@, ClaimModel::Text(decimal_text(user_id as int))),
        ("email"@, ClaimModel::Text(email)),
        ("exp"@, ClaimModel::Number(exp)),
        ("jti"@, ClaimModel::Number(serial)),
    ]
}

/// The claims of a token that is mailed to an address: subject, address,
/// expiry.
pub open spec fn mail_claims(subject: Seq<char>, email: Seq<char>, exp: u64) -> Seq<
    (Seq<char>, ClaimModel),
> {
    seq![
        ("sub"@, ClaimModel::Text(subject)),
        ("email"@, ClaimModel::Text(email)),
        ("exp"@, ClaimModel::Number(exp)),
    ]
}

/// The serial that a claim set carries: the number claim `jti`.
pub open spec fn serial_of(claims: Seq<(Seq<char>, ClaimModel)>) -> Option<u64> {
    number_named(claims, "jti"@)
}

/// Tests whether a claim set carries the serial `serial`.
pub fn carries_serial(claims: &Vec<Claim>, serial: u64) -> (r: bool)
    ensures
        r == (serial_of(claims.deep_view()) == Some(serial)),
{
    match find_number(claims, "jti") {
        Some(n) => n == serial,
        None => false,
    }
}

/// Builds [`session_claims`].
pub fn make_session_claims(
    kind: TokenKind,
    user_id: i32,
    email: &str,
    exp: u64,
    serial: u64,
) -> (claims: Vec<Claim>)
    ensures
        claims.deep_view() == session_claims(subject_of(kind), user_id, email@, exp, serial),
{
    let mut claims: Vec<Claim> = Vec::new();
    claims.push(Claim { name: "sub".to_owned(), value: ClaimValue::Text(subject(kind).to_owned()) });
    claims.push(Claim { name: "id".to_owned(), value: ClaimValue::Text(format_i32(user_id)) });
    claims.push(Claim { name: "email".to_owned(), value: ClaimValue::Text(email.to_owned()) });
    claims.push(Claim { name: "exp".to_owned(), value: ClaimValue::Number(exp) });
    claims.push(Claim { name: "jti".to_owned(), value: ClaimValue::Number(serial) });
    assert(claims.deep_view() =~= session_claims(subject_of(kind), user_id, email@, exp, serial));
    claims
}

/// Builds [`mail_claims`].
pub fn make_mail_claims(subject: &str, email: &str, exp: u64) -> (claims: Vec<Claim>)
    ensures
        claims.deep_view() == mail_claims(subject@, email@, exp),
{
    let mut claims: Vec<Claim> = Vec::new();
    claims.push(Claim { name: "sub".to_owned(), value: ClaimValue::Text(subject.to_owned()) });
    claims.push(Claim { name: "email".to_owned(), value: ClaimValue::Text(email.to_owned()) });
    claims.push(Claim { name: "exp".to_owned(), value: ClaimValue::Number(exp) });
    assert(claims.deep_view() =~= mail_claims(subject@, email@, exp));
    claims
}

/// What the claims of a verified token are worth at time `now` to someone
/// who expects the subject `subject`: `Invalid` without a text `sub` or with
/// another subject, `Invalid` without a number `exp`, `Expired` once `exp`
/// lies before `now`.
pub open spec fn claims_verdict(claims: Seq<(Seq<char>, ClaimModel)>, subject: Seq<char>, now: u64) -> Result<
    (),
    Failure,
> {
    match text_named(claims, "sub"@) {
        None => Err(Failure::Auth(AuthError::Invalid)),
        Some(sub) => if sub != subject {
            Err(Failure::Auth(AuthError::Invalid))
        } else {
            match number_named(claims, "exp"@) {
                None => Err(Failure::Auth(AuthError::Invalid)),
                Some(exp) => if exp < now {
                    Err(Failure::Auth(AuthError::Expired))
                } else {
                    Ok(())
                },
            }
        },
    }
}

/// The four kinds have four subjects.
pub proof fn subjects_differ(a: TokenKind, b: TokenKind)
    requires
        a != b,
    ensures
        subject_of(a) != subject_of(b),
{
    reveal_strlit("someone");
    reveal_strlit("refresh");
    reveal_strlit("verify");
    reveal_strlit("reset");
    assert("someone"@.len() == 7 && "refresh"@.len() == 7 && "verify"@.len() == 6 && "reset"@.len()
        == 5);
    assert("someone"@[0] == 's' && "refresh"@[0] == 'r');
}

/// A token of one kind is never good as one of another: claims that pass
/// the checks under the subject of one kind fail them under the subject of
/// every other kind, at any time.
pub proof fn kinds_do_not_mix(
    claims: Seq<(Seq<char>, ClaimModel)>,
    a: TokenKind,
    b: TokenKind,
    now: u64,
    later: u64,
)
    requires
        a != b,
    ensures
        claims_verdict(claims, subject_of(a), now) is Ok ==> claims_verdict(
            claims,
            subject_of(b),
            later,
        ) == Err::<(), Failure>(Failure::Auth(AuthError::Invalid)),
{
    subjects_differ(a, b);
}

/// Checks subject and expiry of a verified token's claims.
pub fn check_claims(claims: &Vec<Claim>, subject: &str, now: u64) -> (r: Result<(), Failure>)
    ensures
        r == claims_verdict(claims.deep_view(), subject@, now),
{
    let expected = subject.to_owned();
    match find_text(claims, "sub") {
        None => Err(Failure::Auth(AuthError::Invalid)),
        Some(sub) => {
            if *sub != expected {
                return Err(Failure::Auth(AuthError::Invalid));
            }
            match find_number(claims, "exp") {
                None => Err(Failure::Auth(AuthError::Invalid)),
                Some(exp) => if exp < now {
                    Err(Failure::Auth(AuthError::Expired))
                } else {
                    Ok(())
                },
            }
        },
    }
}

/// The user that a claim set names: the claim `id`, a decimal text or a
/// number, within `i32`.
pub open spec fn claimed_user(claims: Seq<(Seq<char>, ClaimModel)>) -> Option<i32> {
    match claim_named(claims, "id"@) {
        Some(ClaimModel::Text(s)) => decimal_i32(s),
        Some(ClaimModel::Number(n)) => if n <= i32::MAX {
            Some(n as i32)
        } else {
            None
        },
        _ => None,
    }
}

/// Reads the user's id out of a claim set; `Invalid` where it names none.
pub fn user_id_of(claims: &Vec<Claim>) -> (r: Result<i32, Failure>)
    ensures
        r == match claimed_user(claims.deep_view()) {
            Some(id) => Ok::<i32, Failure>(id),
            None => Err(Failure::Auth(AuthError::Invalid)),
        },
{
    let id = match find_claim(claims, "id") {
        Some(ClaimValue::Text(s)) => parse_i32(s.as_str()),
        Some(ClaimValue::Number(n)) => if *n <= 0x7fff_ffff {
            Some(*n as i32)
        } else {
            None
        },
        _ => None,
    };
    match id {
        Some(id) => Ok(id),
        None => Err(Failure::Auth(AuthError::Invalid)),
    }
}

/// The address that a claim set names: the text claim `email`.
pub open spec fn claimed_email(claims: Seq<(Seq<char>, ClaimModel)>) -> Option<Seq<char>> {
    text_named(claims, "email"@)
}

/// A header's value without the scheme word: every `Bearer ` taken out.
pub open spec fn bare_token(header: Seq<char>) -> Seq<char> {
    without_pattern(header, "Bearer "@)
}

/// What an access token is worth, given what it verifies to: the claims,
/// unless the signature, the subject or the expiry says otherwise.
pub open spec fn access_verdict(verified: Option<Seq<(Seq<char>, ClaimModel)>>, now: u64) -> Result<
    Seq<(Seq<char>, ClaimModel)>,
    Failure,
> {
    match verified {
        None => Err(Failure::Auth(AuthError::InvalidSignature)),
        Some(claims) => match claims_verdict(claims, access_subject(), now) {
            Ok(()) => Ok(claims),
            Err(e) => Err(e),
        },
    }
}

/// Verifies an access token as it came in a header, and hands out its
/// claims: the signature under the access key, the subject, and that the
/// expiry has not passed. No record is consulted.
pub fn verify_access_token(access_token: &str, access_key: &Vec<u8>, now: u64) -> (r: Result<
    Vec<Claim>,
    Failure,
>)
    ensures
        match access_verdict(verified_claims(bare_token(access_token@), access_key@), now) {
            Ok(claims) => r matches Ok(c) && c.deep_view() == claims,
            Err(e) => r matches Err(f) && f == e,
        },
{
    let bare = remove_all(access_token, "Bearer ");
    let claims = match verify(bare.as_str(), access_key) {
        Ok(c) => c,
        Err(e) => {
            return Err(e);
        },
    };
    match check_claims(&claims, "someone", now) {
        Ok(()) => Ok(claims),
        Err(e) => Err(e),
    }
}

/// Who an access token speaks for, given what it verifies to.
pub open spec fn caller_verdict(verified: Option<Seq<(Seq<char>, ClaimModel)>>, now: u64) -> Result<
    i32,
    Failure,
> {
    match access_verdict(verified, now) {
        Ok(claims) => match claimed_user(claims) {
            Some(id) => Ok(id),
            None => Err(Failure::Auth(AuthError::Invalid)),
        },
        Err(e) => Err(e),
    }
}

/// What stands before every protected operation: the user that the request's
/// access token speaks for. `NotAuthenticated` without a token.
pub fn authorize(ctx: &Context, token: Option<&Token>, now: u64) -> (r: Result<i32, Failure>)
    ensures
        r == match token {
            None => Err::<i32, Failure>(Failure::Auth(AuthError::NotAuthenticated)),
            Some(t) => caller_verdict(
                verified_claims(bare_token(t.0@), ctx.access_key@),
                now,
            ),
        },
{
    match token {
        None => Err(Failure::Auth(AuthError::NotAuthenticated)),
        Some(t) => match verify_access_token(t.0.as_str(), &ctx.access_key, now) {
            Ok(claims) => user_id_of(&claims),
            Err(e) => Err(e),
        },
    }
}

/// Who looks at a public page, given what the token verifies to: nobody
/// where the token is not good, the user it names where it is, and `Invalid`
/// where a good token names no user.
pub open spec fn viewer_verdict(verified: Option<Seq<(Seq<char>, ClaimModel)>>, now: u64) -> Result<
    Option<i32>,
    Failure,
> {
    match access_verdict(verified, now) {
        Ok(claims) => match claimed_user(claims) {
            Some(id) => Ok(Some(id)),
            None => Err(Failure::Auth(AuthError::Invalid)),
        },
        Err(_) => Ok(None),
    }
}

/// Who looks at a public page: see [`viewer_verdict`]. Nobody without a
/// token.
pub fn viewer(ctx: &Context, token: Option<&Token>, now: u64) -> (r: Result<Option<i32>, Failure>)
    ensures
        r == match token {
            None => Ok::<Option<i32>, Failure>(None),
            Some(t) => viewer_verdict(
                verified_claims(bare_token(t.0@), ctx.access_key@),
                now,
            ),
        },
{
    match token {
        None => Ok(None),
        Some(t) => match verify_access_token(t.0.as_str(), &ctx.access_key, now) {
            Ok(claims) => match user_id_of(&claims) {
                Ok(id) => Ok(Some(id)),
                Err(e) => Err(e),
            },
            Err(_) => Ok(None),
        },
    }
}

/// What a successful login or refresh hands out.
#[derive(Debug)]
pub struct LoginResponse {
    pub refresh_token: String,
    pub access_token: String,
    pub user_id: i32,
}

/// What the caller has to do to the record of a user's refresh token.
#[derive(Debug)]
pub enum CacheAction {
    /// Put `token` on record for `user_id`, replacing what was there, to be
    /// forgotten after `ttl_seconds`.
    Store { user_id: i32, token: String, ttl_seconds: u64 },
    /// Forget what is on record for `user_id`.
    Delete { user_id: i32 },
}

/// The record of `user_id` after `action`, where it was `slot` before.
pub open spec fn slot_after(action: CacheAction, user_id: i32, slot: Option<Seq<char>>) -> Option<
    Seq<char>,
> {
    match action {
        CacheAction::Store { user_id: whose, token, ttl_seconds } => if whose == user_id {
            Some(token@)
        } else {
            slot
        },
        CacheAction::Delete { user_id: whose } => if whose == user_id {
            None
        } else {
            slot
        },
    }
}

impl LoginResponse {
    /// The record that goes with this response, as plain data.
    pub open spec fn record_of(self) -> CacheAction {
        CacheAction::Store {
            user_id: self.user_id,
            token: self.refresh_token,
            ttl_seconds: (REFRESH_EXPIRATION * 60) as u64,
        }
    }

    /// The record that goes with this response: its refresh token, under
    /// its user, for as long as the token is valid.
    pub fn record(&self) -> (action: CacheAction)
        ensures
            action == self.record_of(),
    {
        CacheAction::Store {
            user_id: self.user_id,
            token: self.refresh_token.clone(),
            ttl_seconds: REFRESH_EXPIRATION * 60,
        }
    }
}

/// Ends a user's session: their refresh token is forgotten, and with it
/// every refresh fails until they log in again.
pub fn revoke(user_id: i32) -> (action: CacheAction)
    ensures
        action == (CacheAction::Delete { user_id }),
        forall|slot: Option<Seq<char>>| slot_after(action, user_id, slot) is None,
{
    CacheAction::Delete { user_id }
}

/// The claims of the refresh token issued to a user at `now`.
pub open spec fn refresh_claims(user_id: i32, email: Seq<char>, now: u64, serial: u64) -> Seq<
    (Seq<char>, ClaimModel),
> {
    session_claims(
        renewal_subject(),
        user_id,
        email,
        (now + REFRESH_EXPIRATION * 60) as u64,
        serial,
    )
}

/// The claims of the access token issued to a user at `now`.
pub open spec fn access_claims(user_id: i32, email: Seq<char>, now: u64, serial: u64) -> Seq<
    (Seq<char>, ClaimModel),
> {
    session_claims(access_subject(), user_id, email, (now + ACCESS_EXPIRATION * 60) as u64, serial)
}

/// The pair of tokens issued to a user at `now` under `serial`: the refresh
/// token, then the access token. Nothing where the signer fails.
pub open spec fn issued(ctx: Context, user_id: i32, email: Seq<char>, now: u64, serial: u64) -> Option<
    (Seq<char>, Seq<char>),
> {
    match (
        signed_token(refresh_claims(user_id, email, now, serial), ctx.refresh_key@),
        signed_token(access_claims(user_id, email, now, serial), ctx.access_key@),
    ) {
        (Some(refresh), Some(access)) => Some((refresh, access)),
        _ => None,
    }
}

/// `r` hands `tokens` to `user_id`, or reports that there are none.
pub open spec fn is_grant(
    r: Result<LoginResponse, Failure>,
    user_id: i32,
    tokens: Option<(Seq<char>, Seq<char>)>,
) -> bool {
    match tokens {
        Some((refresh, access)) => r matches Ok(resp) && resp.refresh_token@ == refresh
            && resp.access_token@ == access && resp.user_id == user_id,
        None => r matches Err(e) && e == Failure::Dependency,
    }
}

/// Both tokens of `resp` verify under their keys, and read back name by name
/// as the claims that were issued to its user at `now` under `serial`. The
/// access token holds no `Bearer `: it comes out of a header as it went in.
pub open spec fn reads_back(
    ctx: Context,
    resp: LoginResponse,
    email: Seq<char>,
    now: u64,
    serial: u64,
) -> bool {
    &&& verified_claims(resp.refresh_token@, ctx.refresh_key@) matches Some(back) && same_claims(
        back,
        refresh_claims(resp.user_id, email, now, serial),
    )
    &&& verified_claims(resp.access_token@, ctx.access_key@) matches Some(back) && same_claims(
        back,
        access_claims(resp.user_id, email, now, serial),
    )
    &&& bare_token(resp.access_token@) == resp.access_token@
}

/// A compact token holds no `Bearer `: taking the scheme word out of it
/// leaves it as it is.
pub proof fn compact_is_bare(token: Seq<char>)
    requires
        is_compact(token),
    ensures
        bare_token(token) == token,
{
    reveal_strlit("Bearer ");
    assert("Bearer "@.len() == 7 && "Bearer "@[6] == ' ');
    assert forall|i: int| 0 <= i < token.len() implies token[i] != "Bearer "@[6] by {
        assert(is_token_char(token[i]));
    }
    without_pattern_keeps(token, "Bearer "@, 6);
}

/// Puts two signed tokens together into a response; the first failure, if
/// any, is handed on.
pub fn grant(
    user_id: i32,
    refresh: Result<String, Failure>,
    access: Result<String, Failure>,
) -> (r: Result<LoginResponse, Failure>)
    ensures
        match (refresh, access) {
            (Ok(rt), Ok(at)) => r matches Ok(resp) && resp.refresh_token == rt && resp.access_token
                == at && resp.user_id == user_id,
            (Err(e), _) => r matches Err(f) && f == e,
            (Ok(_), Err(e)) => r matches Err(f) && f == e,
        },
{
    match refresh {
        Ok(refresh_token) => match access {
            Ok(access_token) => Ok(LoginResponse { refresh_token, access_token, user_id }),
            Err(e) => Err(e),
        },
        Err(e) => Err(e),
    }
}

/// Issues a fresh pair of tokens to a user: a refresh token valid for
/// `REFRESH_EXPIRATION` minutes under the refresh key, an access token valid
/// for `ACCESS_EXPIRATION` minutes under the access key. Both carry
/// `serial`, which the caller draws anew for every pair.
pub fn issue(ctx: &Context, user_id: i32, email: &str, now: u64, serial: u64) -> (r: Result<
    LoginResponse,
    Failure,
>)
    requires
        now <= LATEST_ISSUE,
    ensures
        is_grant(r, user_id, issued(*ctx, user_id, email@, now, serial)),
        r matches Ok(resp) ==> reads_back(*ctx, resp, email@, now, serial),
        r matches Ok(resp) ==> stays_good(*ctx, resp, now),
{
    let for_refresh = make_session_claims(
        TokenKind::Refresh,
        user_id,
        email,
        now + REFRESH_EXPIRATION * 60,
        serial,
    );
    let for_access = make_session_claims(
        TokenKind::Access,
        user_id,
        email,
        now + ACCESS_EXPIRATION * 60,
        serial,
    );
    let refresh = sign(&for_refresh, &ctx.refresh_key);
    let access = sign(&for_access, &ctx.access_key);
    proof {
        if access is Ok {
            compact_is_bare(access->Ok_0@);
        }
    }
    let r = grant(user_id, refresh, access);
    proof {
        if r is Ok {
            issued_tokens_stay_good(*ctx, r->Ok_0, email@, now, serial);
        }
    }
    r
}

/// Whom a refresh token speaks for before any record is read, given what it
/// verifies to under the refresh key and the user that it names as the
/// store has them: the stateless checks on signature, subject, expiry and
/// a user's id, and `Invalid` where the store has no such user.
pub open spec fn refresh_claimant(
    verified: Option<Seq<(Seq<char>, ClaimModel)>>,
    now: u64,
    user: Option<User>,
) -> Result<i32, Failure> {
    match verified {
        None => Err(Failure::Auth(AuthError::InvalidSignature)),
        Some(claims) => match claims_verdict(claims, renewal_subject(), now) {
            Err(e) => Err(e),
            Ok(()) => match claimed_user(claims) {
                None => Err(Failure::Auth(AuthError::Invalid)),
                Some(id) => match user {
                    None => Err(Failure::Auth(AuthError::Invalid)),
                    Some(u) => if u.id != id {
                        Err(Failure::Auth(AuthError::Invalid))
                    } else {
                        Ok(id)
                    },
                },
            },
        },
    }
}

/// Whom a refresh token lets back in, given what it verifies to under the
/// refresh key, the user that it names as the store has them, and the token
/// on record for that user.
///
/// The stateless checks of [`refresh_claimant`] come first. Then the
/// record: `Revoked` where nothing is on record, or something other than the
/// token presented.
pub open spec fn refresh_verdict(
    verified: Option<Seq<(Seq<char>, ClaimModel)>>,
    now: u64,
    user: Option<User>,
    cached: Option<Seq<char>>,
    presented: Seq<char>,
) -> Result<i32, Failure> {
    match refresh_claimant(verified, now, user) {
        Err(e) => Err(e),
        Ok(id) => if cached != Some(presented) {
            Err(Failure::Auth(AuthError::Revoked))
        } else {
            Ok(id)
        },
    }
}

/// The tokens of `resp`, issued at `issued_at`, stay good until they
/// expire: up to then the refresh token speaks for its user, whoever of
/// that id the store has, and the access token is let through, with or
/// without the scheme word before it.
pub open spec fn stays_good(ctx: Context, resp: LoginResponse, issued_at: u64) -> bool {
    &&& forall|later: u64, user: User|
        later <= issued_at + REFRESH_EXPIRATION * 60 && user.id == resp.user_id
            ==> #[trigger] refresh_claimant(
            verified_claims(resp.refresh_token@, ctx.refresh_key@),
            later,
            Some(user),
        ) == Ok::<i32, Failure>(resp.user_id)
    &&& forall|later: u64|
        later <= issued_at + ACCESS_EXPIRATION * 60 ==> #[trigger] caller_verdict(
            verified_claims(bare_token(resp.access_token@), ctx.access_key@),
            later,
        ) == Ok::<i32, Failure>(resp.user_id)
}

/// Decides a refresh, given the claims that the presented token verified
/// to, or the failure of its verification.
pub fn admit_refresh(
    verified: &Result<Vec<Claim>, Failure>,
    now: u64,
    user: Option<&User>,
    cached: Option<&String>,
    presented: &str,
) -> (r: Result<i32, Failure>)
    ensures
        r == refresh_verdict(
            match verified {
                Ok(c) => Some(c.deep_view()),
                Err(_) => None,
            },
            now,
            match user {
                Some(u) => Some(*u),
                None => None,
            },
            match cached {
                Some(t) => Some(t@),
                None => None,
            },
            presented@,
        ),
{
    let claims = match verified {
        Ok(c) => c,
        Err(_) => {
            return Err(Failure::Auth(AuthError::InvalidSignature));
        },
    };
    match check_claims(claims, "refresh", now) {
        Ok(()) => {},
        Err(e) => {
            return Err(e);
        },
    }
    let id = match user_id_of(claims) {
        Ok(id) => id,
        Err(e) => {
            return Err(e);
        },
    };
    let u = match user {
        Some(u) => u,
        None => {
            return Err(Failure::Auth(AuthError::Invalid));
        },
    };
    if u.id != id {
        return Err(Failure::Auth(AuthError::Invalid));
    }
    let on_record = match cached {
        Some(t) => *t == presented.to_owned(),
        None => false,
    };
    if !on_record {
        return Err(Failure::Auth(AuthError::Revoked));
    }
    Ok(id)
}

/// The user that a refresh token names, before any record is read: what the
/// caller looks up to decide the refresh.
pub fn refresh_subject(ctx: &Context, refresh_token: &str, now: u64) -> (r: Result<i32, Failure>)
    ensures
        r == match verified_claims(refresh_token@, ctx.refresh_key@) {
            None => Err::<i32, Failure>(Failure::Auth(AuthError::InvalidSignature)),
            Some(claims) => match claims_verdict(claims, renewal_subject(), now) {
                Err(e) => Err(e),
                Ok(()) => match claimed_user(claims) {
                    None => Err(Failure::Auth(AuthError::Invalid)),
                    Some(id) => Ok(id),
                },
            },
        },
{
    let claims = match verify(refresh_token, &ctx.refresh_key) {
        Ok(c) => c,
        Err(e) => {
            return Err(e);
        },
    };
    match check_claims(&claims, "refresh", now) {
        Ok(()) => user_id_of(&claims),
        Err(e) => Err(e),
    }
}

/// What the claims of a session token say: they name their user and their
/// serial, and pass the checks on subject and expiry until they expire.
pub proof fn session_claims_are_good(
    subject: Seq<char>,
    user_id: i32,
    email: Seq<char>,
    exp: u64,
    serial: u64,
    now: u64,
)
    ensures
        claimed_user(session_claims(subject, user_id, email, exp, serial)) == Some(user_id),
        serial_of(session_claims(subject, user_id, email, exp, serial)) == Some(serial),
        claims_verdict(session_claims(subject, user_id, email, exp, serial), subject, now) == if exp
            < now {
            Err::<(), Failure>(Failure::Auth(AuthError::Expired))
        } else {
            Ok(())
        },
{
    reveal_strlit("sub");
    reveal_strlit("id");
    reveal_strlit("email");
    reveal_strlit("exp");
    reveal_strlit("jti");
    let claims = session_claims(subject, user_id, email, exp, serial);
    let four = claims.drop_last();
    let three = four.drop_last();
    let two = three.drop_last();
    let one = two.drop_last();
    assert("sub"@.len() == 3 && "id"@.len() == 2 && "email"@.len() == 5 && "exp"@.len() == 3
        && "jti"@.len() == 3);
    assert("sub"@[0] == 's' && "exp"@[0] == 'e' && "jti"@[0] == 'j');
    assert(claims.last() == ("jti"@, ClaimModel::Number(serial)));
    assert(four.last() == ("exp"@, ClaimModel::Number(exp)));
    assert(three.last() == ("email"@, ClaimModel::Text(email)));
    assert(two.last() == ("id"@, ClaimModel::Text(decimal_text(user_id as int))));
    assert(one.last() == ("sub"@, ClaimModel::Text(subject)));
    assert(claim_named(claims, "jti"@) == Some(ClaimModel::Number(serial)));
    assert(claim_named(four, "exp"@) == Some(ClaimModel::Number(exp)));
    assert(claim_named(claims, "exp"@) == claim_named(four, "exp"@));
    assert(claim_named(two, "id"@) == Some(ClaimModel::Text(decimal_text(user_id as int))));
    assert(claim_named(three, "id"@) == claim_named(two, "id"@));
    assert(claim_named(four, "id"@) == claim_named(three, "id"@));
    assert(claim_named(claims, "id"@) == claim_named(four, "id"@));
    assert(claim_named(one, "sub"@) == Some(ClaimModel::Text(subject)));
    assert(claim_named(two, "sub"@) == claim_named(one, "sub"@));
    assert(claim_named(three, "sub"@) == claim_named(two, "sub"@));
    assert(claim_named(four, "sub"@) == claim_named(three, "sub"@));
    assert(claim_named(claims, "sub"@) == claim_named(four, "sub"@));
    crate::text::decimal_round_trip(user_id);
}

/// Claims that read back as session claims say what those say.
pub proof fn read_back_claims_are_good(
    back: Seq<(Seq<char>, ClaimModel)>,
    subject: Seq<char>,
    user_id: i32,
    email: Seq<char>,
    exp: u64,
    serial: u64,
    now: u64,
)
    requires
        same_claims(back, session_claims(subject, user_id, email, exp, serial)),
    ensures
        claimed_user(back) == Some(user_id),
        serial_of(back) == Some(serial),
        claims_verdict(back, subject, now) == if exp < now {
            Err::<(), Failure>(Failure::Auth(AuthError::Expired))
        } else {
            Ok(())
        },
{
    session_claims_are_good(subject, user_id, email, exp, serial, now);
    let signed = session_claims(subject, user_id, email, exp, serial);
    assert(claim_named(back, "sub"@) == claim_named(signed, "sub"@));
    assert(claim_named(back, "exp"@) == claim_named(signed, "exp"@));
    assert(claim_named(back, "id"@) == claim_named(signed, "id"@));
    assert(claim_named(back, "jti"@) == claim_named(signed, "jti"@));
}

/// No token is on record that carries the serial: what is there does not
/// verify under the refresh key, or carries another serial or none.
pub open spec fn serial_is_free(ctx: Context, held: Option<Seq<char>>, serial: u64) -> bool {
    held matches Some(t) ==> !(verified_claims(t, ctx.refresh_key@) matches Some(c) && serial_of(c)
        == Some(serial))
}

/// Tests whether the token on record carries the serial: whether
/// [`serial_is_free`] fails.
pub fn serial_taken(ctx: &Context, held: Option<&String>, serial: u64) -> (r: bool)
    ensures
        r == !serial_is_free(
            *ctx,
            match held {
                Some(t) => Some(t@),
                None => None,
            },
            serial,
        ),
{
    match held {
        Some(t) => match verify(t.as_str(), &ctx.refresh_key) {
            Ok(claims) => carries_serial(&claims, serial),
            Err(_) => false,
        },
        None => false,
    }
}

/// A pair issued under a serial that a token does not carry holds another
/// refresh token than that one.
pub proof fn fresh_serial_gives_fresh_token(
    ctx: Context,
    resp: LoginResponse,
    email: Seq<char>,
    now: u64,
    serial: u64,
    held: Seq<char>,
)
    requires
        reads_back(ctx, resp, email, now, serial),
        serial_is_free(ctx, Some(held), serial),
    ensures
        resp.refresh_token@ != held,
{
    let back = verified_claims(resp.refresh_token@, ctx.refresh_key@)->0;
    read_back_claims_are_good(
        back,
        renewal_subject(),
        resp.user_id,
        email,
        (now + REFRESH_EXPIRATION * 60) as u64,
        serial,
        now,
    );
}

/// Tokens that were issued stay good until they expire.
pub proof fn issued_tokens_stay_good(
    ctx: Context,
    resp: LoginResponse,
    email: Seq<char>,
    issued_at: u64,
    serial: u64,
)
    requires
        reads_back(ctx, resp, email, issued_at, serial),
        issued_at <= LATEST_ISSUE,
    ensures
        stays_good(ctx, resp, issued_at),
{
    let refresh_back = verified_claims(resp.refresh_token@, ctx.refresh_key@)->0;
    let access_back = verified_claims(resp.access_token@, ctx.access_key@)->0;
    assert forall|later: u64, user: User|
        later <= issued_at + REFRESH_EXPIRATION * 60 && user.id
            == resp.user_id implies #[trigger] refresh_claimant(
        verified_claims(resp.refresh_token@, ctx.refresh_key@),
        later,
        Some(user),
    ) == Ok::<i32, Failure>(resp.user_id) by {
        read_back_claims_are_good(
            refresh_back,
            renewal_subject(),
            resp.user_id,
            email,
            (issued_at + REFRESH_EXPIRATION * 60) as u64,
            serial,
            later,
        );
    }
    assert forall|later: u64|
        later <= issued_at + ACCESS_EXPIRATION * 60 implies #[trigger] caller_verdict(
        verified_claims(bare_token(resp.access_token@), ctx.access_key@),
        later,
    ) == Ok::<i32, Failure>(resp.user_id) by {
        read_back_claims_are_good(
            access_back,
            access_subject(),
            resp.user_id,
            email,
            (issued_at + ACCESS_EXPIRATION * 60) as u64,
            serial,
            later,
        );
    }
}

/// A token that was issued refreshes. While the refresh token of a pair
/// issued to a user is on record for them, presenting it before it expires
/// lets that user back in.
pub proof fn issued_token_refreshes(
    ctx: Context,
    resp: LoginResponse,
    user: User,
    issued_at: u64,
    now: u64,
)
    requires
        stays_good(ctx, resp, issued_at),
        user.id == resp.user_id,
        now <= issued_at + REFRESH_EXPIRATION * 60,
    ensures
        refresh_verdict(
            verified_claims(resp.refresh_token@, ctx.refresh_key@),
            now,
            Some(user),
            Some(resp.refresh_token@),
            resp.refresh_token@,
        ) == Ok::<i32, Failure>(user.id),
{
    assert(refresh_claimant(
        verified_claims(resp.refresh_token@, ctx.refresh_key@),
        now,
        Some(user),
    ) == Ok::<i32, Failure>(resp.user_id));
}

/// A refresh succeeds only for the token on record.
pub proof fn refresh_needs_record(
    verified: Option<Seq<(Seq<char>, ClaimModel)>>,
    now: u64,
    user: Option<User>,
    cached: Option<Seq<char>>,
    presented: Seq<char>,
)
    ensures
        refresh_verdict(verified, now, user, cached, presented) is Ok ==> cached == Some(presented),
{
}

/// Rotation invalidates the predecessor. A refresh answers with a pair
/// issued under a serial that the presented token does not carry. Once that
/// pair is on record, the presented token never refreshes again: whenever
/// it still passes the stateless checks it is `Revoked`.
pub proof fn rotation_revokes_predecessor(
    ctx: Context,
    old_token: Seq<char>,
    rotated: LoginResponse,
    email: Seq<char>,
    rotated_at: u64,
    serial: u64,
    before: Option<Seq<char>>,
    now: u64,
    user: Option<User>,
)
    requires
        reads_back(ctx, rotated, email, rotated_at, serial),
        serial_is_free(ctx, Some(old_token), serial),
    ensures
        ({
            let verified = verified_claims(old_token, ctx.refresh_key@);
            let slot = slot_after(rotated.record_of(), rotated.user_id, before);
            &&& rotated.refresh_token@ != old_token
            &&& slot == Some(rotated.refresh_token@)
            &&& refresh_verdict(verified, now, user, slot, old_token) is Err
            &&& refresh_verdict(verified, now, user, Some(old_token), old_token) is Ok
                ==> refresh_verdict(verified, now, user, slot, old_token) == Err::<i32, Failure>(
                Failure::Auth(AuthError::Revoked),
            )
        }),
{
    fresh_serial_gives_fresh_token(ctx, rotated, email, rotated_at, serial, old_token);
}

/// One live refresh token per user. A login answers with a pair issued
/// under a serial that the token on record does not carry. After two logins
/// in a row by one user the record holds the token of the second; the token
/// of the first never refreshes again, and is `Revoked` whenever it still
/// passes the stateless checks.
pub proof fn latest_login_wins(
    ctx: Context,
    first: LoginResponse,
    second: LoginResponse,
    email: Seq<char>,
    second_at: u64,
    serial: u64,
    before: Option<Seq<char>>,
    now: u64,
    user: Option<User>,
    presented: Seq<char>,
)
    requires
        first.user_id == second.user_id,
        reads_back(ctx, second, email, second_at, serial),
        serial_is_free(ctx, Some(first.refresh_token@), serial),
    ensures
        ({
            let slot = slot_after(
                second.record_of(),
                second.user_id,
                slot_after(first.record_of(), first.user_id, before),
            );
            let first_verified = verified_claims(first.refresh_token@, ctx.refresh_key@);
            &&& second.refresh_token@ != first.refresh_token@
            &&& slot == Some(second.refresh_token@)
            &&& refresh_verdict(
                verified_claims(presented, ctx.refresh_key@),
                now,
                user,
                slot,
                presented,
            ) is Ok ==> presented == second.refresh_token@
            &&& refresh_verdict(first_verified, now, user, slot, first.refresh_token@) is Err
            &&& refresh_verdict(
                first_verified,
                now,
                user,
                Some(first.refresh_token@),
                first.refresh_token@,
            ) is Ok ==> refresh_verdict(first_verified, now, user, slot, first.refresh_token@)
                == Err::<i32, Failure>(Failure::Auth(AuthError::Revoked))
        }),
{
    fresh_serial_gives_fresh_token(ctx, second, email, second_at, serial, first.refresh_token@);
}

/// Without a record nobody refreshes: after `revoke`, every refresh of that
/// user's tokens fails.
pub proof fn revoked_user_cannot_refresh(
    user_id: i32,
    before: Option<Seq<char>>,
    verified: Option<Seq<(Seq<char>, ClaimModel)>>,
    now: u64,
    user: Option<User>,
    presented: Seq<char>,
)
    ensures
        refresh_verdict(
            verified,
            now,
            user,
            slot_after(CacheAction::Delete { user_id }, user_id, before),
            presented,
        ) is Err,
{
}

} // verus!
