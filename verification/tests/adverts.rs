use marketplace::advert_queries::{any_bookmark, split_photos, Photos};
use marketplace::model::{Advert, Favorite, Review, Role, Specification, User};
use marketplace::{AdvertMutation, AdvertQuery, AuthError, Failure};

fn advert(id: i32, owner: i32, sold_to: Option<i32>) -> Advert {
    Advert {
        id,
        user_id: owner,
        category: "bikes".to_string(),
        title: format!("advert {}", id),
        price: 10,
        lat: 0,
        lon: 0,
        available: sold_to.is_none(),
        sold_to,
        specs: vec![],
    }
}

fn user(id: i32, role: Role) -> User {
    User {
        id,
        email: Some(format!("user{}@example.com", id)),
        phone: None,
        password_hash: Some("x".to_string()),
        external_identity: None,
        name: None,
        surname: None,
        company_name: None,
        avatar_url: None,
        role,
        banned: false,
        email_verified: true,
    }
}

fn photos(urls: &[&str]) -> Vec<String> {
    urls.iter().map(|u| u.to_string()).collect()
}

fn current() -> Photos {
    Photos { photo_url: "old.png".to_string(), additional_photos: photos(&["old2.png"]) }
}

const FORBIDDEN: Failure = Failure::Auth(AuthError::Forbidden);
const NOT_AUTHENTICATED: Failure = Failure::Auth(AuthError::NotAuthenticated);
const INVALID: Failure = Failure::Auth(AuthError::Invalid);

#[test]
fn review_authorization() {
    let sold = advert(1, 10, Some(20));
    let m = AdvertMutation;
    assert_eq!(m.write_review(Ok(10), Some(&sold), 5, false), Err(FORBIDDEN));
    assert_eq!(m.write_review(Ok(30), Some(&sold), 5, false), Err(FORBIDDEN));
    assert_eq!(m.write_review(Ok(20), Some(&advert(1, 10, None)), 5, false), Err(FORBIDDEN));
    assert_eq!(
        m.write_review(Ok(20), Some(&sold), 5, false),
        Ok(Review { advert_id: 1, user_id: 20, rating: 5 })
    );
    assert_eq!(m.write_review(Ok(20), Some(&sold), 5, true), Err(Failure::Validation));
}

#[test]
fn a_review_needs_one_to_five_stars_a_caller_and_an_advert() {
    let sold = advert(1, 10, Some(20));
    let m = AdvertMutation;
    assert_eq!(m.write_review(Ok(20), Some(&sold), 0, false), Err(Failure::Validation));
    assert_eq!(m.write_review(Ok(20), Some(&sold), 6, false), Err(Failure::Validation));
    assert_eq!(m.write_review(Ok(20), Some(&sold), -1, false), Err(Failure::Validation));
    assert_eq!(m.write_review(Ok(20), Some(&sold), 1, false).unwrap().rating, 1);
    assert_eq!(m.write_review(Err(NOT_AUTHENTICATED), Some(&sold), 5, false), Err(NOT_AUTHENTICATED));
    assert_eq!(m.write_review(Err(NOT_AUTHENTICATED), Some(&sold), 9, false), Err(Failure::Validation));
    assert_eq!(m.write_review(Ok(20), None, 5, false), Err(Failure::NotFound));
}

#[test]
fn sale_immutability() {
    let sold = advert(1, 10, Some(20));
    let m = AdvertMutation;
    let owner = user(10, Role::User);
    assert_eq!(m.edit_advert(Ok(10), Some(&sold), &photos(&["a.png"]), current()).err(), Some(FORBIDDEN));
    assert_eq!(m.delete_advert(Ok(10), Some(&sold), Some(&owner)), Err(FORBIDDEN));
    assert_eq!(m.delete_advert(Ok(1), Some(&sold), Some(&user(1, Role::Admin))), Ok(1));
    assert_eq!(m.delete_advert(Ok(2), Some(&sold), Some(&user(2, Role::Moderator))), Ok(1));
    assert_eq!(m.delete_advert(Ok(10), Some(&sold), Some(&user(10, Role::Admin))), Ok(1));
}

#[test]
fn an_unsold_advert_is_its_owners_to_edit_and_delete() {
    let open = advert(1, 10, None);
    let m = AdvertMutation;
    assert!(m.edit_advert(Ok(10), Some(&open), &photos(&["a.png"]), current()).is_ok());
    assert_eq!(m.edit_advert(Ok(11), Some(&open), &photos(&["a.png"]), current()).err(), Some(FORBIDDEN));
    assert_eq!(m.edit_advert(Ok(10), None, &photos(&["a.png"]), current()).err(), Some(Failure::NotFound));
    assert_eq!(
        m.edit_advert(Err(NOT_AUTHENTICATED), Some(&open), &photos(&["a.png"]), current()).err(),
        Some(NOT_AUTHENTICATED)
    );
    assert_eq!(m.edit_advert(Ok(10), Some(&open), &photos(&[]), current()).err(), Some(Failure::Validation));
    assert_eq!(m.delete_advert(Ok(10), Some(&open), Some(&user(10, Role::User))), Ok(1));
    assert_eq!(m.delete_advert(Ok(11), Some(&open), Some(&user(11, Role::User))), Err(FORBIDDEN));
    assert_eq!(m.delete_advert(Ok(10), None, Some(&user(10, Role::User))), Err(Failure::NotFound));
    assert_eq!(m.delete_advert(Ok(10), Some(&open), None), Err(INVALID));
    assert_eq!(m.delete_advert(Ok(10), Some(&open), Some(&user(11, Role::Admin))), Err(INVALID));
    assert_eq!(
        m.delete_advert(Err(Failure::Auth(AuthError::Expired)), Some(&open), None),
        Err(Failure::Auth(AuthError::Expired))
    );
}

#[test]
fn an_edit_keeps_the_photos_unless_new_ones_come() {
    let open = advert(1, 10, None);
    let m = AdvertMutation;
    let chosen = m.edit_advert(Ok(10), Some(&open), &photos(&["a.png", "b.png", "c.png"]), current()).unwrap();
    assert_eq!(chosen.photo_url, "a.png");
    assert_eq!(chosen.additional_photos, photos(&["b.png", "c.png"]));
    let kept = m.edit_advert(Ok(10), Some(&open), &photos(&["", "b.png"]), current()).unwrap();
    assert_eq!(kept.photo_url, "old.png");
    assert_eq!(kept.additional_photos, photos(&["old2.png"]));
    let single = split_photos(&photos(&["only.png"]));
    assert_eq!(single.photo_url, "only.png");
    assert!(single.additional_photos.is_empty());
}

#[test]
fn creating_an_advert() {
    let m = AdvertMutation;
    let seller = user(10, Role::User);
    let specs = vec![Specification { key: "color".to_string(), value: "red".to_string() }];
    let made = m
        .create_advert(
            Ok(10),
            Some(&seller),
            250,
            1,
            2,
            "red bike".to_string(),
            "bikes".to_string(),
            &photos(&["a.png", "b.png"]),
            specs,
        )
        .unwrap();
    assert_eq!(made.user_id, 10);
    assert_eq!(made.title, "red bike");
    assert_eq!(made.category, "bikes");
    assert_eq!((made.price, made.old_price, made.lat, made.lon), (250, 250, 1, 2));
    assert!(made.available);
    assert_eq!(made.photos.photo_url, "a.png");
    assert_eq!(made.photos.additional_photos, photos(&["b.png"]));
    assert_eq!(made.specs.len(), 1);
    assert_eq!(made.specs[0].key, "color");
}

#[test]
fn who_may_not_create_an_advert() {
    let m = AdvertMutation;
    let try_with = |caller: Result<i32, Failure>, u: Option<&User>, p: &Vec<String>| {
        m.create_advert(caller, u, 1, 0, 0, "t".to_string(), "c".to_string(), p, vec![]).err()
    };
    let one = photos(&["a.png"]);
    let mut unverified = user(10, Role::User);
    unverified.email_verified = false;
    let mut banned = user(10, Role::User);
    banned.banned = true;
    assert_eq!(try_with(Ok(10), Some(&unverified), &one), Some(FORBIDDEN));
    assert_eq!(try_with(Ok(10), Some(&banned), &one), Some(FORBIDDEN));
    assert_eq!(try_with(Ok(10), None, &one), Some(INVALID));
    assert_eq!(try_with(Ok(11), Some(&user(10, Role::User)), &one), Some(INVALID));
    assert_eq!(try_with(Err(NOT_AUTHENTICATED), Some(&user(10, Role::User)), &one), Some(NOT_AUTHENTICATED));
    assert_eq!(try_with(Ok(10), Some(&user(10, Role::User)), &photos(&[])), Some(Failure::Validation));
    assert_eq!(try_with(Ok(10), Some(&user(10, Role::User)), &one), None);
}

#[test]
fn favorites_are_a_set() {
    let m = AdvertMutation;
    let u = user(10, Role::User);
    let favorites = vec![Favorite { user_id: 10, advert_id: 1 }, Favorite { user_id: 11, advert_id: 2 }];
    assert_eq!(m.add_favorite(Ok(10), Some(&u), &favorites, 2), Ok(Favorite { user_id: 10, advert_id: 2 }));
    assert_eq!(m.add_favorite(Ok(10), Some(&u), &favorites, 1), Err(Failure::Validation));
    assert_eq!(m.add_favorite(Ok(10), None, &favorites, 2), Err(INVALID));
    assert_eq!(m.add_favorite(Err(NOT_AUTHENTICATED), Some(&u), &favorites, 2), Err(NOT_AUTHENTICATED));
    assert_eq!(m.remove_favorite(Ok(10), &favorites, 1), Ok(Favorite { user_id: 10, advert_id: 1 }));
    assert_eq!(m.remove_favorite(Ok(10), &favorites, 2), Err(Failure::NotFound));
    assert_eq!(m.remove_favorite(Err(NOT_AUTHENTICATED), &favorites, 1), Err(NOT_AUTHENTICATED));
    assert!(any_bookmark(&favorites, 11));
    assert!(!any_bookmark(&favorites, 12));
}

#[test]
fn one_advert_is_shown_or_not_found() {
    let a = advert(1, 10, None);
    let pool = vec![advert(1, 10, None), advert(2, 10, None)];
    let reviews = vec![Review { advert_id: 2, user_id: 5, rating: 3 }];
    let favorites = vec![Favorite { user_id: 5, advert_id: 1 }];
    let seen = AdvertQuery.advert(Some(&a), Some(5), &favorites, &pool, &reviews).unwrap();
    assert!(seen.is_favorited);
    assert_eq!((seen.user_rating.total, seen.user_rating.count), (3, 1));
    assert_eq!(AdvertQuery.advert(None, Some(5), &favorites, &pool, &reviews).err(), Some(Failure::NotFound));
}

#[test]
fn get_adverts_pages_the_newest_first() {
    let mut pool = vec![advert(3, 10, None), advert(-1, 10, None), advert(7, 11, None), advert(5, 10, Some(9)), advert(4, 12, None)];
    pool[3].available = false;
    let page = |offset: usize, limit: usize| -> Vec<i32> {
        AdvertQuery
            .get_adverts(&pool, offset, limit, None, &vec![], &pool, &vec![])
            .iter()
            .map(|l| l.advert.id)
            .collect()
    };
    assert_eq!(page(0, 10), vec![7, 4, 3, -1]);
    assert_eq!(page(0, 2), vec![7, 4]);
    assert_eq!(page(2, 2), vec![3, -1]);
    assert_eq!(page(3, 2), vec![-1]);
    assert_eq!(page(4, 2), Vec::<i32>::new());
    assert_eq!(page(0, 0), Vec::<i32>::new());
}

#[test]
fn get_favorites_lists_the_callers_bookmarks() {
    let pool = vec![advert(1, 10, None), advert(2, 11, None), advert(3, 12, None)];
    let favorites = vec![
        Favorite { user_id: 5, advert_id: 3 },
        Favorite { user_id: 6, advert_id: 2 },
        Favorite { user_id: 5, advert_id: 1 },
        Favorite { user_id: 7, advert_id: 99 },
    ];
    let q = AdvertQuery;
    let mine = q.get_favorites(Ok(5), Some(&user(5, Role::User)), &pool, &favorites, &pool, &vec![]).unwrap();
    assert_eq!(mine.iter().map(|l| l.advert.id).collect::<Vec<_>>(), vec![1, 3]);
    assert!(mine.iter().all(|l| l.is_favorited));
    let none = q.get_favorites(Ok(8), Some(&user(8, Role::User)), &pool, &favorites, &pool, &vec![]).unwrap();
    assert!(none.is_empty());
    assert_eq!(
        q.get_favorites(Ok(7), Some(&user(7, Role::User)), &pool, &favorites, &pool, &vec![]).err(),
        Some(Failure::NotFound)
    );
    assert_eq!(q.get_favorites(Ok(5), None, &pool, &favorites, &pool, &vec![]).err(), Some(Failure::NotFound));
    assert_eq!(
        q.get_favorites(Err(NOT_AUTHENTICATED), Some(&user(5, Role::User)), &pool, &favorites, &pool, &vec![]).err(),
        Some(NOT_AUTHENTICATED)
    );
}

#[test]
fn roles() {
    assert!(Role::Admin.staff());
    assert!(Role::Moderator.staff());
    assert!(!Role::User.staff());
    assert_eq!(Role::default(), Role::User);
}
