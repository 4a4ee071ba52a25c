use marketplace::claims::{find_number, find_text, Claim, ClaimValue};
use marketplace::model::{
    find_by_email, find_by_email_or_phone, find_by_phone, Advert, Favorite, Review, Role, User,
};
use marketplace::password::hash_password;
use marketplace::session::{make_mail_claims, make_session_claims, TokenKind, RESET_EXPIRATION};
use marketplace::token::verify;
use marketplace::user_queries::{has_review, has_review_by, recipient};
use marketplace::{AuthError, Context, Failure, UserMutation, UserQuery};

const SALT: &str = "c29tZXNhbHRzb21lc2FsdA";
const NOW: u64 = 1_700_000_000;

fn ctx() -> Context {
    Context::new(b"access-secret".to_vec(), b"refresh-secret".to_vec(), "mail-token".to_string(), b"email-secret".to_vec())
}

fn user(id: i32) -> User {
    User {
        id,
        email: Some(format!("user{}@example.com", id)),
        phone: Some(format!("+48 600 000 00{}", id)),
        password_hash: None,
        external_identity: Some("oidc".to_string()),
        name: None,
        surname: None,
        company_name: None,
        avatar_url: None,
        role: Role::User,
        banned: false,
        email_verified: false,
    }
}

fn advert(id: i32, owner: i32) -> Advert {
    Advert {
        id,
        user_id: owner,
        category: "bikes".to_string(),
        title: format!("advert {}", id),
        price: 10,
        lat: 0,
        lon: 0,
        available: true,
        sold_to: None,
        specs: vec![],
    }
}

fn auth(e: AuthError) -> Failure {
    Failure::Auth(e)
}

#[test]
fn a_user_needs_a_channel_and_a_credential() {
    let some = |s: &str| Some(s.to_string());
    let u = User::new(1, some("a@b.c"), None, some("hash"), None).unwrap();
    assert_eq!(u.id, 1);
    assert_eq!(u.email, some("a@b.c"));
    assert_eq!(u.role, Role::User);
    assert!(!u.banned && !u.email_verified);
    assert!(User::new(1, None, some("123"), None, some("oidc")).is_ok());
    assert_eq!(User::new(1, None, None, some("hash"), None).err(), Some(Failure::Validation));
    assert_eq!(User::new(1, some("a@b.c"), None, None, None).err(), Some(Failure::Validation));
    assert_eq!(User::new(1, None, None, None, None).err(), Some(Failure::Validation));
}

#[test]
fn users_are_found_by_email_or_phone() {
    let users = vec![user(1), user(2), user(3)];
    assert_eq!(find_by_email(&users, "user2@example.com").unwrap().id, 2);
    assert!(find_by_email(&users, "nobody@example.com").is_none());
    assert!(find_by_email(&users, "+48 600 000 002").is_none());
    assert_eq!(find_by_phone(&users, "+48 600 000 003").unwrap().id, 3);
    assert!(find_by_phone(&users, "user3@example.com").is_none());
    assert_eq!(find_by_email_or_phone(&users, "user1@example.com").unwrap().id, 1);
    assert_eq!(find_by_email_or_phone(&users, "+48 600 000 001").unwrap().id, 1);
    assert!(find_by_email_or_phone(&users, "").is_none());
    let mut twins = vec![user(1), user(2)];
    twins[1].email = twins[0].email.clone();
    assert_eq!(find_by_email(&twins, "user1@example.com").unwrap().id, 1);
    assert!(find_by_email(&vec![], "user1@example.com").is_none());
}

#[test]
fn register_hashes_and_signs() {
    let c = ctx();
    let reg = UserMutation.register(&c, None, "new@example.com", "long enough", SALT, NOW).unwrap();
    assert!(reg.password_hash.starts_with("$argon2id$"));
    assert_eq!(reg.password_hash, hash_password("long enough", SALT).unwrap());
    let claims = verify(&reg.verification_token, &c.email_key).unwrap();
    assert_eq!(find_text(&claims, "sub").unwrap(), "verify");
    assert_eq!(find_text(&claims, "email").unwrap(), "new@example.com");
    assert_eq!(find_number(&claims, "exp"), Some(NOW + 6000));
    let mut stored = user(9);
    stored.password_hash = Some(reg.password_hash);
    assert!(UserMutation.login(&c, Some(&stored), "long enough", None, NOW, 1).is_ok());
    assert!(UserMutation.login(&c, Some(&stored), "long enough!", None, NOW, 1).is_err());
}

#[test]
fn register_refuses() {
    let c = ctx();
    let m = UserMutation;
    assert_eq!(m.register(&c, None, "a@b.c", "short", SALT, NOW).err(), Some(Failure::Validation));
    assert_eq!(m.register(&c, None, "a@b.c", "1234567", SALT, NOW).err(), Some(Failure::Validation));
    assert!(m.register(&c, None, "a@b.c", "12345678", SALT, NOW).is_ok());
    assert!(m.register(&c, None, "a@b.c", "żółwżółw", SALT, NOW).is_ok());
    assert_eq!(m.register(&c, Some(&user(1)), "a@b.c", "12345678", SALT, NOW).err(), Some(Failure::Validation));
    assert_eq!(m.register(&c, None, "a@b.c", "12345678", "!", NOW).err(), Some(Failure::Dependency));
}

#[test]
fn hashes_depend_on_password_and_salt() {
    let a = hash_password("password one", SALT).unwrap();
    assert_eq!(a, hash_password("password one", SALT).unwrap());
    assert_ne!(a, hash_password("password two", SALT).unwrap());
    assert_ne!(a, hash_password("password one", "YW5vdGhlcnNhbHRhbm90aGVy").unwrap());
    assert_ne!(a, "password one");
    assert_eq!(hash_password("password one", "").err(), Some(Failure::Dependency));
}

#[test]
fn edit_changes_what_is_given() {
    let mut u = user(1);
    u.password_hash = Some(hash_password("secret one", SALT).unwrap());
    u.name = Some("Ann".to_string());
    u.surname = Some("Old".to_string());
    let m = UserMutation;
    let some = |s: &str| Some(s.to_string());
    let hash = u.password_hash.clone();
    let edited = m
        .edit(Ok(1), Some(u), "secret one", None, some("New"), some("Acme"), None, some("a.png"))
        .unwrap();
    assert_eq!(edited.name, some("Ann"));
    assert_eq!(edited.surname, some("New"));
    assert_eq!(edited.company_name, some("Acme"));
    assert_eq!(edited.phone, some("+48 600 000 001"));
    assert_eq!(edited.avatar_url, some("a.png"));
    assert_eq!(edited.id, 1);
    assert_eq!(edited.password_hash, hash);
    assert_eq!(edited.email, some("user1@example.com"));
}

#[test]
fn edit_refuses() {
    let mut u = user(1);
    u.password_hash = Some(hash_password("secret one", SALT).unwrap());
    let m = UserMutation;
    let again = |u: &User| User {
        id: u.id,
        email: u.email.clone(),
        phone: u.phone.clone(),
        password_hash: u.password_hash.clone(),
        external_identity: u.external_identity.clone(),
        name: u.name.clone(),
        surname: u.surname.clone(),
        company_name: u.company_name.clone(),
        avatar_url: u.avatar_url.clone(),
        role: u.role,
        banned: u.banned,
        email_verified: u.email_verified,
    };
    let bad = Some(auth(AuthError::InvalidCredentials));
    assert_eq!(m.edit(Ok(1), Some(again(&u)), "secret two", None, None, None, None, None).err(), bad);
    assert_eq!(m.edit(Ok(1), Some(user(1)), "secret one", None, None, None, None, None).err(), bad);
    assert_eq!(m.edit(Ok(1), None, "secret one", None, None, None, None, None).err(), Some(auth(AuthError::Invalid)));
    assert_eq!(
        m.edit(Ok(2), Some(again(&u)), "secret one", None, None, None, None, None).err(),
        Some(auth(AuthError::Invalid))
    );
    assert_eq!(
        m.edit(Err(auth(AuthError::Expired)), Some(again(&u)), "secret one", None, None, None, None, None).err(),
        Some(auth(AuthError::Expired))
    );
    assert!(m.edit(Ok(1), Some(again(&u)), "secret one", None, None, None, None, None).is_ok());
}

#[test]
fn verify_email_marks_the_unverified() {
    let m = UserMutation;
    let claims = make_mail_claims("verify", "user1@example.com", NOW + 60);
    assert_eq!(m.verify_email(&claims, Some(&user(1)), NOW), Ok(1));
    let mut verified = user(1);
    verified.email_verified = true;
    assert_eq!(m.verify_email(&claims, Some(&verified), NOW), Err(Failure::Validation));
    assert_eq!(m.verify_email(&claims, None, NOW), Err(auth(AuthError::Invalid)));
    assert_eq!(m.verify_email(&claims, Some(&user(1)), NOW + 61), Err(auth(AuthError::Expired)));
    let reset = make_mail_claims("reset", "user1@example.com", NOW + 60);
    assert_eq!(m.verify_email(&reset, Some(&user(1)), NOW), Err(auth(AuthError::Invalid)));
    let no_email = vec![
        Claim { name: "sub".to_string(), value: ClaimValue::Text("verify".to_string()) },
        Claim { name: "exp".to_string(), value: ClaimValue::Number(NOW + 60) },
    ];
    assert_eq!(m.verify_email(&no_email, Some(&user(1)), NOW), Err(auth(AuthError::Invalid)));
}

#[test]
fn resend_email_signs_a_new_token() {
    let c = ctx();
    let m = UserMutation;
    let token = m.resend_email(&c, Ok(1), Some(&user(1)), NOW).unwrap();
    let claims = verify(&token, &c.email_key).unwrap();
    assert_eq!(find_text(&claims, "email").unwrap(), "user1@example.com");
    assert_eq!(find_text(&claims, "sub").unwrap(), "verify");
    assert_eq!(find_number(&claims, "exp"), Some(NOW + 6000));
    assert_eq!(m.verify_email(&claims, Some(&user(1)), NOW), Ok(1));
    let mut no_email = user(1);
    no_email.email = None;
    let token = m.resend_email(&c, Ok(1), Some(&no_email), NOW).unwrap();
    assert_eq!(find_text(&verify(&token, &c.email_key).unwrap(), "email").unwrap(), "default_email");
    let mut verified = user(1);
    verified.email_verified = true;
    assert_eq!(m.resend_email(&c, Ok(1), Some(&verified), NOW).err(), Some(Failure::Validation));
    assert_eq!(m.resend_email(&c, Ok(1), None, NOW).err(), Some(auth(AuthError::Invalid)));
    assert_eq!(m.resend_email(&c, Ok(2), Some(&user(1)), NOW).err(), Some(auth(AuthError::Invalid)));
    assert_eq!(
        m.resend_email(&c, Err(auth(AuthError::NotAuthenticated)), Some(&user(1)), NOW).err(),
        Some(auth(AuthError::NotAuthenticated))
    );
}

#[test]
fn only_admins_ban() {
    let m = UserMutation;
    let mut admin = user(1);
    admin.role = Role::Admin;
    let mut moderator = user(2);
    moderator.role = Role::Moderator;
    let target = user(3);
    let mut banned = user(4);
    banned.banned = true;
    assert_eq!(m.ban_user(Ok(1), Some(&admin), Some(&target)), Ok(true));
    assert_eq!(m.ban_user(Ok(1), Some(&admin), Some(&banned)), Ok(false));
    assert_eq!(m.ban_user(Ok(1), Some(&admin), None), Err(Failure::NotFound));
    assert_eq!(m.ban_user(Ok(2), Some(&moderator), Some(&target)), Err(auth(AuthError::Forbidden)));
    assert_eq!(m.ban_user(Ok(3), Some(&target), Some(&target)), Err(auth(AuthError::Forbidden)));
    assert_eq!(m.ban_user(Ok(1), None, Some(&target)), Err(auth(AuthError::Invalid)));
    assert_eq!(m.ban_user(Ok(9), Some(&admin), Some(&target)), Err(auth(AuthError::Invalid)));
    assert_eq!(
        m.ban_user(Err(auth(AuthError::NotAuthenticated)), Some(&admin), Some(&target)),
        Err(auth(AuthError::NotAuthenticated))
    );
}

#[test]
fn forgot_and_reset_password() {
    let c = ctx();
    let m = UserMutation;
    let u = user(1);
    let token = m.forgot_password(&c, Some(&u), "user1@example.com", NOW).unwrap();
    let claims = verify(&token, &c.email_key).unwrap();
    assert_eq!(find_text(&claims, "sub").unwrap(), "reset");
    assert_eq!(find_text(&claims, "email").unwrap(), "user1@example.com");
    assert_eq!(find_number(&claims, "exp"), Some(NOW + RESET_EXPIRATION * 60));
    assert_eq!(find_number(&claims, "exp"), Some(NOW + 3600));
    assert_eq!(m.forgot_password(&c, None, "user1@example.com", NOW).err(), Some(Failure::NotFound));

    let hash = m.reset_password(&claims, Some(&u), "brand new one", SALT, NOW + 10).unwrap();
    let mut updated = user(1);
    updated.password_hash = Some(hash);
    assert!(m.login(&c, Some(&updated), "brand new one", None, NOW + 20, 1).is_ok());
    assert_eq!(m.reset_password(&claims, None, "brand new one", SALT, NOW).err(), Some(Failure::NotFound));
    assert_eq!(
        m.reset_password(&claims, Some(&u), "brand new one", SALT, NOW + 3601).err(),
        Some(auth(AuthError::Expired))
    );
    assert!(m.reset_password(&claims, Some(&u), "brand new one", SALT, NOW + 3600).is_ok());
    let session = make_session_claims(TokenKind::Access, 1, "user1@example.com", NOW + 60, 1);
    assert_eq!(m.reset_password(&session, Some(&u), "brand new one", SALT, NOW).err(), Some(auth(AuthError::Invalid)));
    assert_eq!(m.reset_password(&claims, Some(&u), "brand new one", "", NOW).err(), Some(Failure::Dependency));
    assert_eq!(m.verify_email(&claims, Some(&u), NOW), Err(auth(AuthError::Invalid)));
}

#[test]
fn validate_reset_token_answers() {
    let q = UserQuery;
    let claims = make_mail_claims("reset", "user1@example.com", NOW + 60);
    assert_eq!(q.validate_reset_token(&claims, NOW, true), Ok(true));
    assert_eq!(q.validate_reset_token(&claims, NOW, false), Ok(false));
    assert_eq!(q.validate_reset_token(&claims, NOW + 59, true), Ok(true));
    assert_eq!(q.validate_reset_token(&claims, NOW + 60, true), Ok(false));
    assert_eq!(q.validate_reset_token(&claims, NOW + 61, true), Ok(false));
    let other = make_mail_claims("someone", "user1@example.com", NOW + 60);
    assert_eq!(q.validate_reset_token(&other, NOW, true), Ok(false));
    let no_exp = vec![Claim { name: "sub".to_string(), value: ClaimValue::Text("reset".to_string()) }];
    assert_eq!(q.validate_reset_token(&no_exp, NOW, true), Ok(false));
    let no_email = vec![
        Claim { name: "sub".to_string(), value: ClaimValue::Text("reset".to_string()) },
        Claim { name: "exp".to_string(), value: ClaimValue::Number(NOW + 60) },
    ];
    assert_eq!(q.validate_reset_token(&no_email, NOW, true), Err(auth(AuthError::Invalid)));
}

#[test]
fn a_profile_shows_rating_and_adverts() {
    let u = user(7);
    let pool = vec![advert(1, 7), advert(4, 8), advert(2, 7), advert(3, 7), advert(5, 9)];
    let reviews = vec![
        Review { advert_id: 1, user_id: 50, rating: 5 },
        Review { advert_id: 3, user_id: 51, rating: 2 },
        Review { advert_id: 9, user_id: 52, rating: 1 },
        Review { advert_id: 5, user_id: 7, rating: 4 },
        Review { advert_id: 4, user_id: 50, rating: 3 },
    ];
    let favorites = vec![Favorite { user_id: 50, advert_id: 2 }, Favorite { user_id: 50, advert_id: 5 }];
    let p = UserQuery.user(Some(&u), &pool, &reviews, Some(50), &favorites).unwrap();
    assert_eq!((p.rating.total, p.rating.count), (7, 2));
    assert_eq!(p.adverts.iter().map(|l| l.advert.id).collect::<Vec<_>>(), vec![1, 2, 3]);
    assert_eq!(p.adverts.iter().map(|l| l.is_favorited).collect::<Vec<_>>(), vec![false, true, false]);
    assert!(p.adverts.iter().all(|l| (l.user_rating.total, l.user_rating.count) == (7, 2)));
    assert_eq!(p.adverts_with_reviews, vec![0, 2]);
    assert_eq!(p.reviewed_adverts.iter().map(|l| l.advert.id).collect::<Vec<_>>(), vec![5]);
    assert!(p.reviewed_adverts[0].is_favorited);
    assert_eq!((p.reviewed_adverts[0].user_rating.total, p.reviewed_adverts[0].user_rating.count), (4, 1));
    assert_eq!(UserQuery.user(None, &pool, &reviews, None, &favorites).err(), Some(Failure::NotFound));
    let nothing: Vec<Advert> = vec![];
    let empty = UserQuery.user(Some(&u), &nothing, &vec![], None, &vec![]).unwrap();
    assert_eq!((empty.rating.total, empty.rating.count), (0, 0));
    assert!(empty.adverts.is_empty());
    assert!(empty.adverts_with_reviews.is_empty());
    assert!(empty.reviewed_adverts.is_empty());
    assert!(has_review(&reviews, 3));
    assert!(!has_review(&reviews, 2));
    assert!(has_review_by(&reviews, 5, 7));
    assert!(!has_review_by(&reviews, 5, 50));
    assert!(!has_review_by(&reviews, 1, 7));
}

#[test]
fn me_is_the_callers_profile() {
    let u = user(7);
    let pool = vec![advert(1, 7), advert(2, 8)];
    let favorites = vec![Favorite { user_id: 7, advert_id: 1 }];
    let q = UserQuery;
    let p = q.me(Ok(7), Some(&u), &pool, &vec![], &favorites).unwrap();
    assert_eq!(p.adverts.len(), 1);
    assert!(p.adverts[0].is_favorited);
    assert_eq!(q.me(Ok(8), Some(&u), &pool, &vec![], &favorites).err(), Some(Failure::NotFound));
    assert_eq!(q.me(Ok(7), None, &pool, &vec![], &favorites).err(), Some(Failure::NotFound));
    assert_eq!(
        q.me(Err(auth(AuthError::NotAuthenticated)), Some(&u), &pool, &vec![], &favorites).err(),
        Some(auth(AuthError::NotAuthenticated))
    );
}

#[test]
fn recipients_are_greeted_by_name() {
    let mut u = user(1);
    assert_eq!(recipient(&u), "User");
    u.company_name = Some("Acme".to_string());
    assert_eq!(recipient(&u), "Acme");
    u.name = Some("Ann".to_string());
    assert_eq!(recipient(&u), "Ann");
}
