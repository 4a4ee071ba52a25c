use marketplace::claims::{find_number, find_text, Claim, ClaimValue};
use marketplace::model::{Role, User};
use marketplace::password::hash_password;
use marketplace::session::{
    admit_refresh, authorize, carries_serial, check_claims, grant, issue, make_mail_claims,
    make_session_claims, refresh_subject, revoke, serial_taken, subject, user_id_of, viewer,
    CacheAction, TokenKind, ACCESS_EXPIRATION, LATEST_ISSUE, REFRESH_EXPIRATION,
};
use marketplace::token::{sign, verify};
use marketplace::user_queries::{admit_login, check_password};
use marketplace::{verify_access_token, AuthError, Context, Failure, Token, UserMutation};

const SALT: &str = "c29tZXNhbHRzb21lc2FsdA";
const NOW: u64 = 1_700_000_000;

fn ctx() -> Context {
    Context::new(b"access-secret".to_vec(), b"refresh-secret".to_vec(), "mail-token".to_string(), b"email-secret".to_vec())
}

fn user(id: i32, password: Option<&str>) -> User {
    User {
        id,
        email: Some(format!("user{}@example.com", id)),
        phone: None,
        password_hash: password.map(|p| hash_password(p, SALT).unwrap()),
        external_identity: None,
        name: None,
        surname: None,
        company_name: None,
        avatar_url: None,
        role: Role::User,
        banned: false,
        email_verified: true,
    }
}

fn text(name: &str, value: &str) -> Claim {
    Claim { name: name.to_string(), value: ClaimValue::Text(value.to_string()) }
}

fn number(name: &str, value: u64) -> Claim {
    Claim { name: name.to_string(), value: ClaimValue::Number(value) }
}

fn auth(e: AuthError) -> Failure {
    Failure::Auth(e)
}

fn access(claims: &Vec<Claim>) -> String {
    sign(claims, &ctx().access_key).unwrap()
}

#[test]
fn context_keeps_its_keys() {
    let c = ctx();
    assert_eq!(c.access_key, b"access-secret".to_vec());
    assert_eq!(c.refresh_key, b"refresh-secret".to_vec());
    assert_eq!(c.mailersend_token, "mail-token");
    assert_eq!(c.email_key, b"email-secret".to_vec());
}

#[test]
fn session_claims_hold_subject_id_email_expiry() {
    let claims = make_session_claims(TokenKind::Access, -12, "ann@example.com", 99, 7);
    assert_eq!(claims.len(), 5);
    assert_eq!(find_text(&claims, "sub").unwrap(), "someone");
    assert_eq!(find_number(&claims, "jti"), Some(7));
    assert!(carries_serial(&claims, 7));
    assert!(!carries_serial(&claims, 8));
    assert!(!carries_serial(&vec![text("jti", "7")], 7));
    let renewal = make_session_claims(TokenKind::Refresh, 1, "", 99, 0);
    assert_eq!(find_text(&renewal, "sub").unwrap(), "refresh");
    assert_eq!(find_text(&renewal, "email").unwrap(), "");
    assert_eq!(find_text(&claims, "id").unwrap(), "-12");
    assert_eq!(find_text(&claims, "email").unwrap(), "ann@example.com");
    assert_eq!(find_number(&claims, "exp"), Some(99));
    assert_eq!(user_id_of(&claims), Ok(-12));
    let mail = make_mail_claims("reset", "bob@example.com", 7);
    assert_eq!(mail.len(), 3);
    assert_eq!(find_text(&mail, "sub").unwrap(), "reset");
    assert_eq!(find_text(&mail, "email").unwrap(), "bob@example.com");
    assert_eq!(find_number(&mail, "exp"), Some(7));
}

#[test]
fn check_claims_tells_the_failures_apart() {
    let good = vec![text("sub", "someone"), number("exp", NOW)];
    assert_eq!(check_claims(&good, "someone", NOW), Ok(()));
    assert_eq!(check_claims(&good, "someone", NOW - 1), Ok(()));
    assert_eq!(check_claims(&good, "someone", NOW + 1), Err(auth(AuthError::Expired)));
    assert_eq!(check_claims(&good, "reset", NOW), Err(auth(AuthError::Invalid)));
    assert_eq!(check_claims(&vec![number("exp", NOW)], "someone", NOW), Err(auth(AuthError::Invalid)));
    assert_eq!(check_claims(&vec![text("sub", "someone")], "someone", NOW), Err(auth(AuthError::Invalid)));
    assert_eq!(
        check_claims(&vec![text("sub", "someone"), text("exp", "1700000000")], "someone", NOW),
        Err(auth(AuthError::Invalid))
    );
    assert_eq!(
        check_claims(&vec![number("sub", 1), number("exp", NOW)], "someone", NOW),
        Err(auth(AuthError::Invalid))
    );
    assert_eq!(
        check_claims(&vec![text("sub", "other"), number("exp", 0)], "someone", NOW),
        Err(auth(AuthError::Invalid))
    );
}

#[test]
fn user_id_of_reads_texts_and_numbers() {
    assert_eq!(user_id_of(&vec![text("id", "17")]), Ok(17));
    assert_eq!(user_id_of(&vec![text("id", "+17")]), Ok(17));
    assert_eq!(user_id_of(&vec![number("id", 17)]), Ok(17));
    assert_eq!(user_id_of(&vec![number("id", 2147483647)]), Ok(i32::MAX));
    assert_eq!(user_id_of(&vec![number("id", 2147483648)]), Err(auth(AuthError::Invalid)));
    assert_eq!(user_id_of(&vec![text("id", "seventeen")]), Err(auth(AuthError::Invalid)));
    assert_eq!(user_id_of(&vec![text("id", "")]), Err(auth(AuthError::Invalid)));
    assert_eq!(user_id_of(&vec![]), Err(auth(AuthError::Invalid)));
    assert_eq!(
        user_id_of(&vec![Claim { name: "id".to_string(), value: ClaimValue::Other }]),
        Err(auth(AuthError::Invalid))
    );
}

#[test]
fn verify_access_token_accepts_a_good_token() {
    let token = access(&make_session_claims(TokenKind::Access, 5, "a@b.c", NOW + 60, 1));
    let claims = verify_access_token(&token, &ctx().access_key, NOW).unwrap();
    assert_eq!(user_id_of(&claims), Ok(5));
    let with_scheme = format!("Bearer {}", token);
    let claims = verify_access_token(&with_scheme, &ctx().access_key, NOW).unwrap();
    assert_eq!(find_text(&claims, "email").unwrap(), "a@b.c");
}

#[test]
fn verify_access_token_refuses_bad_tokens() {
    let key = ctx().access_key;
    let expired = access(&make_session_claims(TokenKind::Access, 5, "a@b.c", NOW - 1, 1));
    assert_eq!(verify_access_token(&expired, &key, NOW).err(), Some(auth(AuthError::Expired)));
    let at_expiry = access(&make_session_claims(TokenKind::Access, 5, "a@b.c", NOW, 1));
    assert!(verify_access_token(&at_expiry, &key, NOW).is_ok());
    let reset = access(&make_mail_claims("reset", "a@b.c", NOW + 60));
    assert_eq!(verify_access_token(&reset, &key, NOW).err(), Some(auth(AuthError::Invalid)));
    let no_exp = access(&vec![text("sub", "someone")]);
    assert_eq!(verify_access_token(&no_exp, &key, NOW).err(), Some(auth(AuthError::Invalid)));
    let other_key = sign(&make_session_claims(TokenKind::Access, 5, "a@b.c", NOW + 60, 1), &ctx().refresh_key).unwrap();
    assert_eq!(verify_access_token(&other_key, &key, NOW).err(), Some(auth(AuthError::InvalidSignature)));
    assert_eq!(verify_access_token("garbage", &key, NOW).err(), Some(auth(AuthError::InvalidSignature)));
    assert_eq!(verify_access_token("", &key, NOW).err(), Some(auth(AuthError::InvalidSignature)));
}

#[test]
fn authorize_names_the_caller() {
    let c = ctx();
    let good = Token(format!("Bearer {}", access(&make_session_claims(TokenKind::Access, 42, "a@b.c", NOW + 60, 1))));
    assert_eq!(authorize(&c, Some(&good), NOW), Ok(42));
    assert_eq!(authorize(&c, None, NOW), Err(auth(AuthError::NotAuthenticated)));
    assert_eq!(authorize(&c, Some(&good), NOW + 61), Err(auth(AuthError::Expired)));
    let nameless = Token(access(&vec![text("sub", "someone"), number("exp", NOW + 60)]));
    assert_eq!(authorize(&c, Some(&nameless), NOW), Err(auth(AuthError::Invalid)));
    let numbered = Token(access(&vec![text("sub", "someone"), number("exp", NOW + 60), number("id", 8)]));
    assert_eq!(authorize(&c, Some(&numbered), NOW), Ok(8));
    assert_eq!(authorize(&c, Some(&Token("nonsense".to_string())), NOW), Err(auth(AuthError::InvalidSignature)));
}

#[test]
fn a_refresh_token_is_no_access_token() {
    let c = ctx();
    let u = user(3, Some("correct horse"));
    let resp = UserMutation.login(&c, Some(&u), "correct horse", None, NOW, 1).unwrap();
    assert_eq!(authorize(&c, Some(&Token(resp.access_token.clone())), NOW), Ok(3));
    assert_eq!(
        authorize(&c, Some(&Token(resp.refresh_token.clone())), NOW),
        Err(auth(AuthError::InvalidSignature))
    );
    assert_eq!(refresh_subject(&c, &resp.access_token, NOW), Err(auth(AuthError::InvalidSignature)));
    assert_eq!(refresh_subject(&c, &resp.refresh_token, NOW), Ok(3));
}

#[test]
fn viewer_is_nobody_without_a_good_token() {
    let c = ctx();
    let good = Token(access(&make_session_claims(TokenKind::Access, 42, "a@b.c", NOW + 60, 1)));
    assert_eq!(viewer(&c, Some(&good), NOW), Ok(Some(42)));
    assert_eq!(viewer(&c, None, NOW), Ok(None));
    assert_eq!(viewer(&c, Some(&good), NOW + 61), Ok(None));
    assert_eq!(viewer(&c, Some(&Token("nonsense".to_string())), NOW), Ok(None));
    let nameless = Token(access(&vec![text("sub", "someone"), number("exp", NOW + 60)]));
    assert_eq!(viewer(&c, Some(&nameless), NOW), Err(auth(AuthError::Invalid)));
}

#[test]
fn login_issues_both_tokens() {
    let c = ctx();
    let u = user(3, Some("correct horse"));
    let resp = UserMutation.login(&c, Some(&u), "correct horse", None, NOW, 1).unwrap();
    assert_eq!(resp.user_id, 3);
    let access_claims = verify(&resp.access_token, &c.access_key).unwrap();
    assert_eq!(find_number(&access_claims, "exp"), Some(NOW + ACCESS_EXPIRATION * 60));
    assert_eq!(find_number(&access_claims, "exp"), Some(NOW + 6000));
    assert_eq!(find_text(&access_claims, "sub").unwrap(), "someone");
    assert_eq!(find_text(&access_claims, "id").unwrap(), "3");
    assert_eq!(find_text(&access_claims, "email").unwrap(), "user3@example.com");
    let refresh_claims = verify(&resp.refresh_token, &c.refresh_key).unwrap();
    assert_eq!(find_number(&refresh_claims, "exp"), Some(NOW + REFRESH_EXPIRATION * 60));
    assert_eq!(find_number(&refresh_claims, "exp"), Some(NOW + 10800));
    assert_eq!(user_id_of(&refresh_claims), Ok(3));
    assert_eq!(find_text(&refresh_claims, "sub").unwrap(), "refresh");
    assert_eq!(find_number(&refresh_claims, "jti"), Some(1));
    assert_eq!(find_number(&access_claims, "jti"), Some(1));
    match resp.record() {
        CacheAction::Store { user_id, token, ttl_seconds } => {
            assert_eq!(user_id, 3);
            assert_eq!(token, resp.refresh_token);
            assert_eq!(ttl_seconds, 10800);
        }
        other => panic!("unexpected action {:?}", other),
    }
}

#[test]
fn login_refuses_bad_credentials() {
    let c = ctx();
    let u = user(3, Some("correct horse"));
    let bad = Some(auth(AuthError::InvalidCredentials));
    assert_eq!(UserMutation.login(&c, Some(&u), "wrong horse", None, NOW, 1).err(), bad);
    assert_eq!(UserMutation.login(&c, Some(&u), "", None, NOW, 1).err(), bad);
    assert_eq!(UserMutation.login(&c, None, "correct horse", None, NOW, 1).err(), bad);
    assert_eq!(UserMutation.login(&c, Some(&user(4, None)), "correct horse", None, NOW, 1).err(), bad);
    let mut broken = user(5, None);
    broken.password_hash = Some("not a hash".to_string());
    assert_eq!(UserMutation.login(&c, Some(&broken), "not a hash", None, NOW, 1).err(), bad);
    let mut banned = user(6, Some("correct horse"));
    banned.banned = true;
    assert_eq!(UserMutation.login(&c, Some(&banned), "correct horse", None, NOW, 1).err(), Some(auth(AuthError::Forbidden)));
    assert_eq!(UserMutation.login(&c, Some(&banned), "wrong horse", None, NOW, 1).err(), bad);
}

#[test]
fn admit_login_decides_on_plain_values() {
    let mut u = user(3, None);
    u.password_hash = Some("hash".to_string());
    assert_eq!(admit_login(Some(&u), true), Ok(3));
    assert_eq!(admit_login(Some(&u), false), Err(auth(AuthError::InvalidCredentials)));
    assert_eq!(admit_login(None, true), Err(auth(AuthError::InvalidCredentials)));
    u.banned = true;
    assert_eq!(admit_login(Some(&u), true), Err(auth(AuthError::Forbidden)));
    u.password_hash = None;
    assert_eq!(admit_login(Some(&u), true), Err(auth(AuthError::InvalidCredentials)));
    assert!(!check_password(None, "x"));
    assert!(!check_password(Some(&u), "x"));
    assert!(check_password(Some(&user(1, Some("x"))), "x"));
    assert!(!check_password(Some(&user(1, Some("x"))), "y"));
}

fn record_of(resp: &marketplace::LoginResponse) -> String {
    match resp.record() {
        CacheAction::Store { token, .. } => token,
        other => panic!("unexpected action {:?}", other),
    }
}

#[test]
fn refresh_rotation_invalidates_predecessor() {
    let c = ctx();
    let u = user(3, Some("correct horse"));
    let m = UserMutation;
    let r1 = m.login(&c, Some(&u), "correct horse", None, NOW, 1).unwrap().refresh_token;
    let rotated = m.refresh(&c, &r1, Some(&u), Some(&r1), NOW + 5, 2).unwrap();
    let r2 = rotated.refresh_token.clone();
    assert_ne!(r1, r2);
    assert_eq!(rotated.user_id, 3);
    assert_eq!(authorize(&c, Some(&Token(rotated.access_token.clone())), NOW + 5), Ok(3));
    let cached = record_of(&rotated);
    assert_eq!(m.refresh(&c, &r1, Some(&u), Some(&cached), NOW + 6, 3).err(), Some(auth(AuthError::Revoked)));
    assert!(m.refresh(&c, &r2, Some(&u), Some(&cached), NOW + 6, 3).is_ok());
}

#[test]
fn rotation_holds_within_one_second() {
    let c = ctx();
    let u = user(3, Some("correct horse"));
    let m = UserMutation;
    let r1 = m.login(&c, Some(&u), "correct horse", None, NOW, 1).unwrap().refresh_token;
    let rotated = m.refresh(&c, &r1, Some(&u), Some(&r1), NOW, 2).unwrap();
    assert_ne!(rotated.refresh_token, r1);
    let cached = record_of(&rotated);
    assert_eq!(m.refresh(&c, &r1, Some(&u), Some(&cached), NOW, 3).err(), Some(auth(AuthError::Revoked)));
    let again = m.refresh(&c, &cached, Some(&u), Some(&cached), NOW, 3).unwrap();
    assert_ne!(again.refresh_token, cached);
    assert_ne!(again.refresh_token, r1);
}

#[test]
fn a_refresh_refuses_the_serial_of_the_token_presented() {
    let c = ctx();
    let u = user(3, Some("correct horse"));
    let m = UserMutation;
    let r1 = m.login(&c, Some(&u), "correct horse", None, NOW, 1).unwrap().refresh_token;
    assert_eq!(m.refresh(&c, &r1, Some(&u), Some(&r1), NOW, 1).err(), Some(Failure::Validation));
    assert_eq!(m.refresh(&c, &r1, Some(&u), Some(&r1), NOW + 9, 1).err(), Some(Failure::Validation));
    let other = "something else".to_string();
    assert_eq!(m.refresh(&c, &r1, Some(&u), Some(&other), NOW, 1).err(), Some(auth(AuthError::Revoked)));
    assert!(m.refresh(&c, &r1, Some(&u), Some(&r1), NOW, 0).is_ok());
    assert!(serial_taken(&c, Some(&r1), 1));
    assert!(!serial_taken(&c, Some(&r1), 2));
    assert!(!serial_taken(&c, Some(&other), 1));
    assert!(!serial_taken(&c, None, 1));
}

#[test]
fn single_active_refresh_token() {
    let c = ctx();
    let u = user(3, Some("correct horse"));
    let m = UserMutation;
    let first = m.login(&c, Some(&u), "correct horse", None, NOW, 1).unwrap();
    let mut slot = Some(record_of(&first));
    let second = m.login(&c, Some(&u), "correct horse", slot.as_ref(), NOW + 1, 2).unwrap();
    assert_ne!(first.refresh_token, second.refresh_token);
    slot = Some(record_of(&second));
    assert_eq!(slot.as_ref(), Some(&second.refresh_token));
    assert_eq!(
        m.refresh(&c, &first.refresh_token, Some(&u), slot.as_ref(), NOW + 2, 3).err(),
        Some(auth(AuthError::Revoked))
    );
    assert!(m.refresh(&c, &second.refresh_token, Some(&u), slot.as_ref(), NOW + 2, 3).is_ok());
}

#[test]
fn two_logins_in_one_second_give_two_tokens() {
    let c = ctx();
    let u = user(3, Some("correct horse"));
    let m = UserMutation;
    let first = m.login(&c, Some(&u), "correct horse", None, NOW, 1).unwrap();
    let held = record_of(&first);
    assert_eq!(m.login(&c, Some(&u), "correct horse", Some(&held), NOW, 1).err(), Some(Failure::Validation));
    assert_eq!(
        m.login(&c, Some(&u), "wrong horse", Some(&held), NOW, 1).err(),
        Some(auth(AuthError::InvalidCredentials))
    );
    let second = m.login(&c, Some(&u), "correct horse", Some(&held), NOW, 2).unwrap();
    assert_ne!(second.refresh_token, first.refresh_token);
    assert_ne!(second.access_token, first.access_token);
    let slot = record_of(&second);
    assert_eq!(
        m.refresh(&c, &first.refresh_token, Some(&u), Some(&slot), NOW, 3).err(),
        Some(auth(AuthError::Revoked))
    );
    assert!(m.refresh(&c, &second.refresh_token, Some(&u), Some(&slot), NOW, 3).is_ok());
    let stale = "not a token".to_string();
    assert!(m.login(&c, Some(&u), "correct horse", Some(&stale), NOW, 1).is_ok());
}

#[test]
fn a_user_known_by_phone_alone_logs_in() {
    let c = ctx();
    let mut u = user(3, Some("correct horse"));
    u.email = None;
    u.phone = Some("+48 600 000 003".to_string());
    let m = UserMutation;
    let bad = Some(auth(AuthError::InvalidCredentials));
    assert_eq!(m.login(&c, Some(&u), "wrong horse", None, NOW, 1).err(), bad);
    let resp = m.login(&c, Some(&u), "correct horse", None, NOW, 1).unwrap();
    assert_eq!(resp.user_id, 3);
    let claims = verify(&resp.refresh_token, &c.refresh_key).unwrap();
    assert_eq!(find_text(&claims, "email").unwrap(), "");
    assert_eq!(user_id_of(&claims), Ok(3));
    assert_eq!(authorize(&c, Some(&Token(resp.access_token.clone())), NOW), Ok(3));
    let held = record_of(&resp);
    assert_eq!(m.refresh(&c, &held, Some(&u), None, NOW, 2).err(), Some(auth(AuthError::Revoked)));
    let rotated = m.refresh(&c, &held, Some(&u), Some(&held), NOW, 2).unwrap();
    assert_ne!(rotated.refresh_token, held);
    u.banned = true;
    assert_eq!(m.login(&c, Some(&u), "correct horse", None, NOW, 1).err(), Some(auth(AuthError::Forbidden)));
    u.banned = false;
    u.password_hash = None;
    assert_eq!(m.login(&c, Some(&u), "correct horse", None, NOW, 1).err(), bad);
}

#[test]
fn each_kind_has_its_own_subject() {
    let kinds = [TokenKind::Access, TokenKind::Refresh, TokenKind::EmailVerification, TokenKind::PasswordReset];
    assert_eq!(subject(TokenKind::Access), "someone");
    assert_eq!(subject(TokenKind::Refresh), "refresh");
    assert_eq!(subject(TokenKind::EmailVerification), "verify");
    assert_eq!(subject(TokenKind::PasswordReset), "reset");
    for made in kinds {
        let claims = make_session_claims(made, 3, "a@b.c", NOW, 1);
        for expected in kinds {
            let verdict = check_claims(&claims, subject(expected), NOW);
            if made == expected {
                assert_eq!(verdict, Ok(()));
            } else {
                assert_eq!(verdict, Err(auth(AuthError::Invalid)));
            }
        }
    }
}

#[test]
fn an_issued_access_token_is_compact() {
    let c = ctx();
    let resp = issue(&c, 3, "a b Bearer c@d.e", NOW, 1).unwrap();
    for t in [&resp.access_token, &resp.refresh_token] {
        assert!(t.chars().all(|ch| ch.is_ascii_alphanumeric() || ch == '-' || ch == '_' || ch == '.'));
    }
    assert_eq!(authorize(&c, Some(&Token(resp.access_token.clone())), NOW + 6000), Ok(3));
    assert_eq!(authorize(&c, Some(&Token(format!("Bearer {}", resp.access_token))), NOW + 6000), Ok(3));
    assert_eq!(
        authorize(&c, Some(&Token(resp.access_token.clone())), NOW + 6001),
        Err(auth(AuthError::Expired))
    );
}

#[test]
fn revoke_forces_a_new_login() {
    let c = ctx();
    let u = user(3, Some("correct horse"));
    let m = UserMutation;
    let resp = m.login(&c, Some(&u), "correct horse", None, NOW, 1).unwrap();
    match revoke(3) {
        CacheAction::Delete { user_id } => assert_eq!(user_id, 3),
        other => panic!("unexpected action {:?}", other),
    }
    assert_eq!(m.refresh(&c, &resp.refresh_token, Some(&u), None, NOW + 1, 2).err(), Some(auth(AuthError::Revoked)));
}

#[test]
fn refresh_checks_the_token_before_the_record() {
    let c = ctx();
    let u = user(3, Some("correct horse"));
    let m = UserMutation;
    let r = m.login(&c, Some(&u), "correct horse", None, NOW, 1).unwrap().refresh_token;
    let late = NOW + REFRESH_EXPIRATION * 60 + 1;
    assert_eq!(m.refresh(&c, &r, Some(&u), Some(&r), late, 2).err(), Some(auth(AuthError::Expired)));
    assert!(m.refresh(&c, &r, Some(&u), Some(&r), late - 1, 2).is_ok());
    assert_eq!(m.refresh(&c, &r, None, Some(&r), NOW, 2).err(), Some(auth(AuthError::Invalid)));
    assert_eq!(m.refresh(&c, &r, Some(&user(4, None)), Some(&r), NOW, 2).err(), Some(auth(AuthError::Invalid)));
    let forged = "a.b.c".to_string();
    assert_eq!(m.refresh(&c, &forged, Some(&u), Some(&forged), NOW, 2).err(), Some(auth(AuthError::InvalidSignature)));
    let reset = sign(&make_mail_claims("reset", "a@b.c", NOW + 60), &c.refresh_key).unwrap();
    assert_eq!(m.refresh(&c, &reset, Some(&u), Some(&reset), NOW, 2).err(), Some(auth(AuthError::Invalid)));
    let as_access =
        sign(&make_session_claims(TokenKind::Access, 3, "a@b.c", NOW + 60, 1), &c.refresh_key).unwrap();
    assert_eq!(
        m.refresh(&c, &as_access, Some(&u), Some(&as_access), NOW, 2).err(),
        Some(auth(AuthError::Invalid))
    );
}

#[test]
fn admit_refresh_decides_on_plain_values() {
    let u = user(3, None);
    let claims: Result<Vec<Claim>, Failure> = Ok(make_session_claims(TokenKind::Refresh, 3, "a@b.c", NOW, 1));
    let presented = "the token";
    let same = "the token".to_string();
    let other = "another token".to_string();
    assert_eq!(admit_refresh(&claims, NOW, Some(&u), Some(&same), presented), Ok(3));
    assert_eq!(admit_refresh(&claims, NOW, Some(&u), Some(&other), presented), Err(auth(AuthError::Revoked)));
    assert_eq!(admit_refresh(&claims, NOW, Some(&u), None, presented), Err(auth(AuthError::Revoked)));
    assert_eq!(admit_refresh(&claims, NOW + 1, Some(&u), Some(&same), presented), Err(auth(AuthError::Expired)));
    assert_eq!(admit_refresh(&claims, NOW, None, Some(&same), presented), Err(auth(AuthError::Invalid)));
    let failed: Result<Vec<Claim>, Failure> = Err(auth(AuthError::InvalidSignature));
    assert_eq!(
        admit_refresh(&failed, NOW, Some(&u), Some(&same), presented),
        Err(auth(AuthError::InvalidSignature))
    );
}

#[test]
fn grant_hands_on_the_first_failure() {
    let ok = grant(1, Ok("r".to_string()), Ok("a".to_string())).unwrap();
    assert_eq!((ok.refresh_token.as_str(), ok.access_token.as_str(), ok.user_id), ("r", "a", 1));
    assert_eq!(grant(1, Err(Failure::Dependency), Ok("a".to_string())).err(), Some(Failure::Dependency));
    assert_eq!(grant(1, Ok("r".to_string()), Err(Failure::NotFound)).err(), Some(Failure::NotFound));
    assert_eq!(grant(1, Err(Failure::Dependency), Err(Failure::NotFound)).err(), Some(Failure::Dependency));
}

#[test]
fn issue_is_deterministic_in_its_inputs() {
    let c = ctx();
    let a = issue(&c, 3, "a@b.c", NOW, 1).unwrap();
    let b = issue(&c, 3, "a@b.c", NOW, 1).unwrap();
    assert_eq!(a.refresh_token, b.refresh_token);
    assert_eq!(a.access_token, b.access_token);
    let later = issue(&c, 3, "a@b.c", NOW + 1, 1).unwrap();
    assert_ne!(a.refresh_token, later.refresh_token);
    assert_ne!(a.access_token, a.refresh_token);
    let other_serial = issue(&c, 3, "a@b.c", NOW, 2).unwrap();
    assert_ne!(a.refresh_token, other_serial.refresh_token);
    assert_ne!(a.access_token, other_serial.access_token);
}

#[test]
fn tokens_are_issued_up_to_the_latest_time() {
    let c = ctx();
    assert_eq!(LATEST_ISSUE, u64::MAX - 10800);
    let resp = issue(&c, 1, "a@b.c", LATEST_ISSUE, 1).unwrap();
    let claims = verify(&resp.refresh_token, &c.refresh_key).unwrap();
    assert_eq!(find_number(&claims, "exp"), Some(u64::MAX));
    assert_eq!(refresh_subject(&c, &resp.refresh_token, u64::MAX), Ok(1));
}

#[test]
fn failures_have_texts() {
    assert_eq!(Failure::NotFound.message(), "not found");
    assert_eq!(auth(AuthError::NotAuthenticated).message(), "you are not logged in");
    assert_eq!(auth(AuthError::InvalidCredentials).message(), "wrong email or password");
    assert_eq!(auth(AuthError::Revoked).message(), "token revoked");
    assert_eq!(Failure::Validation.message(), "invalid input");
    assert_eq!(Failure::Dependency.message(), "a service is unavailable");
}
