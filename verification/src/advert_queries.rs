//! What users ask of adverts: single adverts, similar adverts, listings,
//! searches and favorites; and the rules on who may edit, delete, bookmark
//! and review.
//!
//! Each function decides one request on what the caller has read from the
//! store. A `caller` argument is what [`crate::session::authorize`]
//! answered; its failure is handed on.

use vstd::prelude::*;

use crate::failure::{AuthError, Failure};
use crate::model::{Advert, Favorite, Review, Specification, User};
use crate::order::{arrange, arranged, goes_before, same_kind, sort_order, stable_order, SortKey};
use crate::rating::{is_favorite, is_listing_of, list, list_at, shows, Listing, MAX_REVIEWS};
use crate::search::{page, paginate, search, search_page, SearchQuery};
use crate::similar::{find_similar, is_candidate, is_exact, similar_positions, SIMILAR_LIMIT};

verus! {

/// The positions below `n` of the adverts on offer, ascending.
pub open spec fn on_offer(pool: Seq<Advert>, n: nat) -> Seq<usize>
    decreases n,
{
    if n == 0 {
        Seq::empty()
    } else {
        let before = on_offer(pool, (n - 1) as nat);
        if pool[n - 1].available {
            before.push((n - 1) as usize)
        } else {
            before
        }
    }
}

/// An advert's id as a sort key: ids ascend as their keys do.
pub open spec fn id_key(a: Advert) -> SortKey {
    SortKey::Count((a.id + 0x8000_0000) as u64)
}

/// The page of the newest adverts on offer: by descending id, `offset`
/// skipped, `limit` at most.
pub open spec fn newest_page(pool: Seq<Advert>, offset: usize, limit: usize) -> Seq<usize> {
    let at = on_offer(pool, pool.len());
    let keys = Seq::new(at.len(), |k: int| id_key(pool[at[k] as int]));
    page(arranged(at, stable_order(keys, true, at.len())), offset as nat, Some(limit))
}

/// The positions below `n` of the adverts that `user` has bookmarked,
/// ascending.
pub open spec fn bookmarked(pool: Seq<Advert>, favorites: Seq<Favorite>, user: i32, n: nat) -> Seq<
    usize,
>
    decreases n,
{
    if n == 0 {
        Seq::empty()
    } else {
        let before = bookmarked(pool, favorites, user, (n - 1) as nat);
        if is_favorite(favorites, user, pool[n - 1].id) {
            before.push((n - 1) as usize)
        } else {
            before
        }
    }
}

/// `user` has a bookmark.
pub open spec fn has_bookmarks(favorites: Seq<Favorite>, user: i32) -> bool {
    exists|k: int| 0 <= k < favorites.len() && (#[trigger] favorites[k]).user_id == user
}

/// Tests [`has_bookmarks`].
pub fn any_bookmark(favorites: &Vec<Favorite>, user: i32) -> (r: bool)
    ensures
        r == has_bookmarks(favorites@, user),
{
    let mut i: usize = 0;
    while i < favorites.len()
        invariant
            i <= favorites@.len(),
            forall|k: int| 0 <= k < i ==> (#[trigger] favorites@[k]).user_id != user,
        decreases favorites@.len() - i,
    {
        if favorites[i].user_id == user {
            return true;
        }
        i += 1;
    }
    false
}

/// No two adverts of the pool have one id.
pub open spec fn distinct_ids(pool: Seq<Advert>) -> bool {
    forall|i: int, j: int| 0 <= i < j < pool.len() ==> (#[trigger] pool[i]).id != (#[trigger] pool[j]).id
}

/// `out` shows to `viewer` the adverts of `pool` that are similar to
/// `reference`, best first: those at [`similar_positions`]. They are four at
/// most and no position is taken twice, so that no advert comes twice where
/// ids are distinct. Each is on offer, is not the reference and stands in
/// its category. No exact match comes behind an advert that is none, and
/// the overlap with the reference never grows.
pub open spec fn shows_similar(
    out: Seq<Listing>,
    reference: Advert,
    pool: Seq<Advert>,
    viewer: Option<i32>,
    favorites: Seq<Favorite>,
    owned: Seq<Advert>,
    reviews: Seq<Review>,
) -> bool {
    &&& shows(out, pool, similar_positions(reference, pool), viewer, favorites, owned, reviews)
    &&& out.len() <= SIMILAR_LIMIT
    &&& similar_positions(reference, pool).no_duplicates()
    &&& distinct_ids(pool) ==> forall|p: int, q: int|
        0 <= p < q < out.len() ==> (#[trigger] out[p]).advert.id != (#[trigger] out[q]).advert.id
    &&& forall|k: int|
        0 <= k < out.len() ==> {
            let a = *(#[trigger] out[k]).advert;
            a.available && a.id != reference.id && a.category@ == reference.category@
        }
    &&& forall|p: int, q: int|
        0 <= p < q < out.len() && is_exact(reference, *(#[trigger] out[q]).advert) ==> is_exact(
            reference,
            *(#[trigger] out[p]).advert,
        )
    &&& forall|p: int, q: int|
        0 <= p < q < out.len() ==> crate::similar::overlap(reference, *(#[trigger] out[q]).advert)
            <= crate::similar::overlap(reference, *(#[trigger] out[p]).advert)
}

/// Queries on adverts.
#[derive(Debug)]
pub struct AdvertQuery;

impl Default for AdvertQuery {
    fn default() -> (q: AdvertQuery) {
        AdvertQuery
    }
}

impl AdvertQuery {
    /// One advert as `viewer` sees it. `NotFound` without the advert.
    pub fn advert<'a>(
        &self,
        advert: Option<&'a Advert>,
        viewer: Option<i32>,
        favorites: &Vec<Favorite>,
        owned: &Vec<Advert>,
        reviews: &Vec<Review>,
    ) -> (r: Result<Listing<'a>, Failure>)
        requires
            reviews@.len() <= MAX_REVIEWS,
        ensures
            match advert {
                None => r matches Err(e) && e == Failure::NotFound,
                Some(a) => r matches Ok(l) && is_listing_of(
                    l,
                    *a,
                    viewer,
                    favorites@,
                    owned@,
                    reviews@,
                ),
            },
    {
        match advert {
            None => Err(Failure::NotFound),
            Some(a) => Ok(list(a, viewer, favorites, owned, reviews)),
        }
    }

    /// The adverts of `pool` that are similar to `reference`, best first, as
    /// `viewer` sees them. `NotFound` without the reference advert.
    ///
    /// At most four, none twice. Each is on offer, is not the reference and
    /// stands in its category. No exact match comes behind an advert that is
    /// none, and the overlap with the reference never grows.
    pub fn similar_adverts<'a>(
        &self,
        reference: Option<&Advert>,
        pool: &'a Vec<Advert>,
        viewer: Option<i32>,
        favorites: &Vec<Favorite>,
        owned: &Vec<Advert>,
        reviews: &Vec<Review>,
    ) -> (r: Result<Vec<Listing<'a>>, Failure>)
        requires
            reviews@.len() <= MAX_REVIEWS,
        ensures
            match reference {
                None => r matches Err(e) && e == Failure::NotFound,
                Some(a) => r matches Ok(out) && shows_similar(
                    out@,
                    *a,
                    pool@,
                    viewer,
                    favorites@,
                    owned@,
                    reviews@,
                ),
            },
    {
        let reference = match reference {
            Some(a) => a,
            None => {
                return Err(Failure::NotFound);
            },
        };
        let at = find_similar(reference, pool);
        let out = list_at(pool, &at, viewer, favorites, owned, reviews);
        proof {
            assert forall|k: int| 0 <= k < out@.len() implies {
                let a = *(#[trigger] out@[k]).advert;
                a.available && a.id != reference.id && a.category@ == reference.category@
            } by {
                assert(is_candidate(*reference, pool@[at@[k] as int]));
            }
            assert forall|p: int, q: int|
                0 <= p < q < out@.len() && is_exact(
                    *reference,
                    *(#[trigger] out@[q]).advert,
                ) implies is_exact(*reference, *(#[trigger] out@[p]).advert) by {
                assert(*out@[q].advert == pool@[at@[q] as int]);
                assert(*out@[p].advert == pool@[at@[p] as int]);
            }
            assert forall|p: int, q: int| 0 <= p < q < out@.len() implies crate::similar::overlap(
                *reference,
                *(#[trigger] out@[q]).advert,
            ) <= crate::similar::overlap(*reference, *(#[trigger] out@[p]).advert) by {
                assert(*out@[q].advert == pool@[at@[q] as int]);
                assert(*out@[p].advert == pool@[at@[p] as int]);
            }
            if distinct_ids(pool@) {
                assert forall|p: int, q: int| 0 <= p < q < out@.len() implies (
                #[trigger] out@[p]).advert.id != (#[trigger] out@[q]).advert.id by {
                    assert(*out@[q].advert == pool@[at@[q] as int]);
                    assert(*out@[p].advert == pool@[at@[p] as int]);
                    assert(at@[p] != at@[q]);
                }
            }
        }
        Ok(out)
    }

    /// One page of the adverts on offer, newest first (by descending id), as
    /// `viewer` sees them.
    pub fn get_adverts<'a>(
        &self,
        pool: &'a Vec<Advert>,
        offset: usize,
        limit: usize,
        viewer: Option<i32>,
        favorites: &Vec<Favorite>,
        owned: &Vec<Advert>,
        reviews: &Vec<Review>,
    ) -> (out: Vec<Listing<'a>>)
        requires
            reviews@.len() <= MAX_REVIEWS,
        ensures
            shows(
                out@,
                pool@,
                newest_page(pool@, offset, limit),
                viewer,
                favorites@,
                owned@,
                reviews@,
            ),
            out@.len() <= limit,
            forall|k: int| 0 <= k < out@.len() ==> (#[trigger] out@[k]).advert.available,
            forall|p: int, q: int|
                0 <= p < q < out@.len() ==> (#[trigger] out@[q]).advert.id <= (
                #[trigger] out@[p]).advert.id,
    {
        let mut at: Vec<usize> = Vec::new();
        let mut keys: Vec<SortKey> = Vec::new();
        let mut i: usize = 0;
        while i < pool.len()
            invariant
                i <= pool@.len(),
                at@ == on_offer(pool@, i as nat),
                forall|k: int| 0 <= k < at@.len() ==> (#[trigger] at@[k]) < i && pool@[at@[k] as int].available,
                keys@.len() == at@.len(),
                forall|k: int| 0 <= k < at@.len() ==> keys@[k] == id_key(pool@[at@[k] as int]),
            decreases pool@.len() - i,
        {
            if pool[i].available {
                at.push(i);
                keys.push(SortKey::Count((pool[i].id as i64 + 0x8000_0000) as u64));
            }
            i += 1;
        }
        assert(keys@ =~= Seq::new(at@.len(), |k: int| id_key(pool@[at@[k] as int])));
        assert(forall|k: int| 0 <= k < keys@.len() ==> (#[trigger] keys@[k]) is Count);
        assert(same_kind(keys@));
        let order = sort_order(&keys, true);
        let sorted = arrange(&at, &order);
        let picked = paginate(&sorted, offset, Some(limit));
        proof {
            assert forall|k: int| 0 <= k < picked@.len() implies (#[trigger] picked@[k]) < pool@.len()
                && pool@[picked@[k] as int].available by {
                assert(sorted@[offset + k] == at@[order@[offset + k] as int]);
            }
            assert forall|p: int, q: int| 0 <= p < q < picked@.len() implies pool@[(
            #[trigger] picked@[q]) as int].id <= pool@[(#[trigger] picked@[p]) as int].id by {
                let (i, j) = (offset + p, offset + q);
                assert(sorted@[i] == at@[order@[i] as int] && sorted@[j] == at@[order@[j] as int]);
                assert(!goes_before(keys@, true, order@[j] as int, order@[i] as int));
            }
        }
        let out = list_at(pool, &picked, viewer, favorites, owned, reviews);
        proof {
            assert forall|k: int| 0 <= k < out@.len() implies (#[trigger] out@[k]).advert.available by {
                assert(*out@[k].advert == pool@[picked@[k] as int]);
            }
            assert forall|p: int, q: int| 0 <= p < q < out@.len() implies (
            #[trigger] out@[q]).advert.id <= (#[trigger] out@[p]).advert.id by {
                assert(*out@[p].advert == pool@[picked@[p] as int]);
                assert(*out@[q].advert == pool@[picked@[q] as int]);
            }
        }
        out
    }

    /// One page of a search's results, as `viewer` sees them: every advert
    /// of `pool` that passes all of the query's filters, sorted as the query
    /// asks, then paged.
    ///
    /// Each result passes every filter; in particular its price lies within
    /// the bounds that the query gives.
    pub fn search_adverts<'a>(
        &self,
        pool: &'a Vec<Advert>,
        q: &SearchQuery,
        viewer: Option<i32>,
        favorites: &Vec<Favorite>,
        owned: &Vec<Advert>,
        reviews: &Vec<Review>,
    ) -> (out: Vec<Listing<'a>>)
        requires
            reviews@.len() <= MAX_REVIEWS,
        ensures
            shows(
                out@,
                pool@,
                search_page(*q, pool@, owned@, reviews@),
                viewer,
                favorites@,
                owned@,
                reviews@,
            ),
            forall|k: int|
                0 <= k < out@.len() ==> crate::search::keeps(
                    *q,
                    *(#[trigger] out@[k]).advert,
                    owned@,
                    reviews@,
                ),
            crate::search::in_order(
                *q,
                pool@,
                search_page(*q, pool@, owned@, reviews@),
                owned@,
                reviews@,
            ),
            forall|k: int|
                0 <= k < out@.len() ==> (q.min_price matches Some(low) ==> low <= (
                #[trigger] out@[k]).advert.price),
            forall|k: int|
                0 <= k < out@.len() ==> (q.max_price matches Some(high) ==> (
                #[trigger] out@[k]).advert.price <= high),
    {
        let at = search(q, pool, owned, reviews);
        let out = list_at(pool, &at, viewer, favorites, owned, reviews);
        proof {
            assert forall|k: int| 0 <= k < out@.len() implies crate::search::keeps(
                *q,
                *(#[trigger] out@[k]).advert,
                owned@,
                reviews@,
            ) by {
                assert(*out@[k].advert == pool@[at@[k] as int]);
            }
        }
        out
    }

    /// The adverts of `pool` that the caller has bookmarked, in pool order.
    ///
    /// `NotFound` where the store has no such user. Nothing for a caller
    /// without bookmarks; `NotFound` where there are bookmarks and none of
    /// their adverts is in `pool`.
    pub fn get_favorites<'a>(
        &self,
        caller: Result<i32, Failure>,
        user: Option<&User>,
        pool: &'a Vec<Advert>,
        favorites: &Vec<Favorite>,
        owned: &Vec<Advert>,
        reviews: &Vec<Review>,
    ) -> (r: Result<Vec<Listing<'a>>, Failure>)
        requires
            reviews@.len() <= MAX_REVIEWS,
        ensures
            match (caller, user) {
                (Err(e), _) => r matches Err(f) && f == e,
                (Ok(id), None) => r matches Err(f) && f == Failure::NotFound,
                (Ok(id), Some(u)) => if u.id != id {
                    r matches Err(f) && f == Failure::NotFound
                } else if !has_bookmarks(favorites@, id) {
                    r matches Ok(out) && out@.len() == 0
                } else if bookmarked(pool@, favorites@, id, pool@.len()).len() == 0 {
                    r matches Err(f) && f == Failure::NotFound
                } else {
                    r matches Ok(out) && shows(
                        out@,
                        pool@,
                        bookmarked(pool@, favorites@, id, pool@.len()),
                        Some(id),
                        favorites@,
                        owned@,
                        reviews@,
                    ) && forall|k: int| 0 <= k < out@.len() ==> (#[trigger] out@[k]).is_favorited
                },
            },
    {
        let id = match caller {
            Ok(id) => id,
            Err(e) => {
                return Err(e);
            },
        };
        match user {
            Some(u) => {
                if u.id != id {
                    return Err(Failure::NotFound);
                }
            },
            None => {
                return Err(Failure::NotFound);
            },
        }
        if !any_bookmark(favorites, id) {
            return Ok(Vec::new());
        }
        let mut at: Vec<usize> = Vec::new();
        let mut i: usize = 0;
        while i < pool.len()
            invariant
                i <= pool@.len(),
                at@ == bookmarked(pool@, favorites@, id, i as nat),
                forall|k: int|
                    0 <= k < at@.len() ==> (#[trigger] at@[k]) < i && is_favorite(
                        favorites@,
                        id,
                        pool@[at@[k] as int].id,
                    ),
            decreases pool@.len() - i,
        {
            if crate::rating::has_favorite(favorites, id, pool[i].id) {
                at.push(i);
            }
            i += 1;
        }
        if at.len() == 0 {
            return Err(Failure::NotFound);
        }
        let out = list_at(pool, &at, Some(id), favorites, owned, reviews);
        proof {
            assert forall|k: int| 0 <= k < out@.len() implies (#[trigger] out@[k]).is_favorited by {
                assert(*out@[k].advert == pool@[at@[k] as int]);
            }
        }
        Ok(out)
    }
}

/// The photos of an advert: the main one and the others.
#[derive(Debug)]
pub struct Photos {
    pub photo_url: String,
    pub additional_photos: Vec<String>,
}

/// What a new advert starts with. It is on offer, without a buyer, and its
/// former price is its price.
#[derive(Debug)]
pub struct NewAdvert {
    pub user_id: i32,
    pub category: String,
    pub title: String,
    pub price: u64,
    pub old_price: u64,
    pub lat: i64,
    pub lon: i64,
    pub available: bool,
    pub photos: Photos,
    pub specs: Vec<Specification>,
}

/// The first photo and the rest.
pub fn split_photos(photos: &Vec<String>) -> (r: Photos)
    requires
        photos@.len() > 0,
    ensures
        r.photo_url == photos@[0],
        r.additional_photos@ == photos@.skip(1),
{
    let mut additional: Vec<String> = Vec::new();
    let mut i: usize = 1;
    while i < photos.len()
        invariant
            1 <= i <= photos@.len(),
            additional@ == photos@.skip(1).take(i - 1),
        decreases photos@.len() - i,
    {
        additional.push(photos[i].clone());
        assert(photos@.skip(1).take(i as int) =~= photos@.skip(1).take(i - 1).push(photos@[i as int]));
        i += 1;
    }
    assert(photos@.skip(1).take(photos@.len() - 1) =~= photos@.skip(1));
    Photos { photo_url: photos[0].clone(), additional_photos: additional }
}

/// Whether `caller` may change `advert`: only its owner, and only while it
/// is unsold.
pub open spec fn edit_verdict(caller: Result<i32, Failure>, advert: Option<Advert>) -> Result<
    (),
    Failure,
> {
    match caller {
        Err(e) => Err(e),
        Ok(id) => match advert {
            None => Err(Failure::NotFound),
            Some(a) => if a.user_id != id {
                Err(Failure::Auth(AuthError::Forbidden))
            } else if a.sold_to is Some {
                Err(Failure::Auth(AuthError::Forbidden))
            } else {
                Ok(())
            },
        },
    }
}

/// Whether `caller` may delete `advert`: admins and moderators always, the
/// owner while the advert is unsold, nobody else.
pub open spec fn delete_verdict(caller: Result<i32, Failure>, advert: Option<Advert>, user: Option<User>) -> Result<
    i32,
    Failure,
> {
    match caller {
        Err(e) => Err(e),
        Ok(id) => match advert {
            None => Err(Failure::NotFound),
            Some(a) => match user {
                None => Err(Failure::Auth(AuthError::Invalid)),
                Some(u) => if u.id != id {
                    Err(Failure::Auth(AuthError::Invalid))
                } else if u.role.is_staff() {
                    Ok(a.id)
                } else if a.user_id != id {
                    Err(Failure::Auth(AuthError::Forbidden))
                } else if a.sold_to is Some {
                    Err(Failure::Auth(AuthError::Forbidden))
                } else {
                    Ok(a.id)
                },
            },
        },
    }
}

/// Whether `caller` may review `advert` with `rating` stars: the stars are
/// 1 to 5, the caller is not the owner but the one the advert was sold to,
/// and the advert has no review yet.
pub open spec fn review_verdict(
    caller: Result<i32, Failure>,
    advert: Option<Advert>,
    rating: i32,
    reviewed: bool,
) -> Result<Review, Failure> {
    if !(1 <= rating <= 5) {
        Err(Failure::Validation)
    } else {
        match caller {
            Err(e) => Err(e),
            Ok(id) => match advert {
                None => Err(Failure::NotFound),
                Some(a) => if a.user_id == id {
                    Err(Failure::Auth(AuthError::Forbidden))
                } else if a.sold_to != Some(id) {
                    Err(Failure::Auth(AuthError::Forbidden))
                } else if reviewed {
                    Err(Failure::Validation)
                } else {
                    Ok(Review { advert_id: a.id, user_id: id, rating })
                },
            },
        }
    }
}

/// Mutations on adverts.
#[derive(Debug)]
pub struct AdvertMutation;

impl Default for AdvertMutation {
    fn default() -> (m: AdvertMutation) {
        AdvertMutation
    }
}

impl AdvertMutation {
    /// Decides an edit of an advert and chooses its photos: the new ones
    /// where the first of them is not empty, the current ones otherwise.
    ///
    /// `Validation` without a photo. Then, as [`edit_verdict`] says: only
    /// the owner may edit, and a sold advert is edited by nobody.
    pub fn edit_advert(
        &self,
        caller: Result<i32, Failure>,
        advert: Option<&Advert>,
        photos: &Vec<String>,
        current: Photos,
    ) -> (r: Result<Photos, Failure>)
        ensures
            if photos@.len() == 0 {
                r matches Err(e) && e == Failure::Validation
            } else {
                match edit_verdict(
                    caller,
                    match advert {
                        Some(a) => Some(*a),
                        None => None,
                    },
                ) {
                    Err(e) => r matches Err(f) && f == e,
                    Ok(()) => r matches Ok(chosen) && if photos@[0]@.len() > 0 {
                        chosen.photo_url == photos@[0] && chosen.additional_photos@
                            == photos@.skip(1)
                    } else {
                        chosen == current
                    },
                }
            },
    {
        if photos.len() == 0 {
            return Err(Failure::Validation);
        }
        let id = match caller {
            Ok(id) => id,
            Err(e) => {
                return Err(e);
            },
        };
        let a = match advert {
            Some(a) => a,
            None => {
                return Err(Failure::NotFound);
            },
        };
        if a.user_id != id {
            return Err(Failure::Auth(AuthError::Forbidden));
        }
        if a.sold_to.is_some() {
            return Err(Failure::Auth(AuthError::Forbidden));
        }
        if !photos[0].as_str().is_empty() {
            Ok(split_photos(photos))
        } else {
            Ok(current)
        }
    }

    /// Decides a new bookmark and hands it out. `Invalid` where the store
    /// has no such user; `Validation` where the bookmark exists already.
    pub fn add_favorite(
        &self,
        caller: Result<i32, Failure>,
        user: Option<&User>,
        favorites: &Vec<Favorite>,
        advert_id: i32,
    ) -> (r: Result<Favorite, Failure>)
        ensures
            r == match (caller, user) {
                (Err(e), _) => Err::<Favorite, Failure>(e),
                (Ok(id), None) => Err(Failure::Auth(AuthError::Invalid)),
                (Ok(id), Some(u)) => if u.id != id {
                    Err(Failure::Auth(AuthError::Invalid))
                } else if is_favorite(favorites@, id, advert_id) {
                    Err(Failure::Validation)
                } else {
                    Ok(Favorite { user_id: id, advert_id })
                },
            },
    {
        let id = match caller {
            Ok(id) => id,
            Err(e) => {
                return Err(e);
            },
        };
        match user {
            Some(u) => {
                if u.id != id {
                    return Err(Failure::Auth(AuthError::Invalid));
                }
            },
            None => {
                return Err(Failure::Auth(AuthError::Invalid));
            },
        }
        if crate::rating::has_favorite(favorites, id, advert_id) {
            return Err(Failure::Validation);
        }
        Ok(Favorite { user_id: id, advert_id })
    }

    /// Decides the removal of a bookmark and hands out the one to remove.
    /// `NotFound` where the caller has no such bookmark.
    pub fn remove_favorite(
        &self,
        caller: Result<i32, Failure>,
        favorites: &Vec<Favorite>,
        advert_id: i32,
    ) -> (r: Result<Favorite, Failure>)
        ensures
            r == match caller {
                Err(e) => Err::<Favorite, Failure>(e),
                Ok(id) => if is_favorite(favorites@, id, advert_id) {
                    Ok(Favorite { user_id: id, advert_id })
                } else {
                    Err(Failure::NotFound)
                },
            },
    {
        let id = match caller {
            Ok(id) => id,
            Err(e) => {
                return Err(e);
            },
        };
        if crate::rating::has_favorite(favorites, id, advert_id) {
            Ok(Favorite { user_id: id, advert_id })
        } else {
            Err(Failure::NotFound)
        }
    }

    /// Decides a new advert and puts it together from what the caller
    /// entered: on offer, owned by the caller, the first photo as the main
    /// one.
    ///
    /// `Validation` without a photo. `Invalid` where the store has no such
    /// user; `Forbidden` for a user whose address is not verified, or who is
    /// banned.
    pub fn create_advert(
        &self,
        caller: Result<i32, Failure>,
        user: Option<&User>,
        price: u64,
        lat: i64,
        lon: i64,
        title: String,
        category: String,
        photos: &Vec<String>,
        specs: Vec<Specification>,
    ) -> (r: Result<NewAdvert, Failure>)
        ensures
            if photos@.len() == 0 {
                r matches Err(e) && e == Failure::Validation
            } else {
                match (caller, user) {
                    (Err(e), _) => r matches Err(f) && f == e,
                    (Ok(id), None) => r matches Err(f) && f == Failure::Auth(AuthError::Invalid),
                    (Ok(id), Some(u)) => if u.id != id {
                        r matches Err(f) && f == Failure::Auth(AuthError::Invalid)
                    } else if !u.email_verified || u.banned {
                        r matches Err(f) && f == Failure::Auth(AuthError::Forbidden)
                    } else {
                        r matches Ok(a) && a.user_id == id && a.category == category && a.title
                            == title && a.price == price && a.old_price == price && a.lat == lat
                            && a.lon == lon && a.available && a.specs == specs
                            && a.photos.photo_url == photos@[0] && a.photos.additional_photos@
                            == photos@.skip(1)
                    },
                }
            },
    {
        if photos.len() == 0 {
            return Err(Failure::Validation);
        }
        let id = match caller {
            Ok(id) => id,
            Err(e) => {
                return Err(e);
            },
        };
        let u = match user {
            Some(u) => u,
            None => {
                return Err(Failure::Auth(AuthError::Invalid));
            },
        };
        if u.id != id {
            return Err(Failure::Auth(AuthError::Invalid));
        }
        if !u.email_verified || u.banned {
            return Err(Failure::Auth(AuthError::Forbidden));
        }
        Ok(
            NewAdvert {
                user_id: id,
                category,
                title,
                price,
                old_price: price,
                lat,
                lon,
                available: true,
                photos: split_photos(photos),
                specs,
            },
        )
    }

    /// Decides the deletion of an advert and hands out the id to delete, as
    /// [`delete_verdict`] says: admins and moderators may delete any advert;
    /// the owner may delete theirs until it is sold.
    pub fn delete_advert(
        &self,
        caller: Result<i32, Failure>,
        advert: Option<&Advert>,
        user: Option<&User>,
    ) -> (r: Result<i32, Failure>)
        ensures
            r == delete_verdict(
                caller,
                match advert {
                    Some(a) => Some(*a),
                    None => None,
                },
                match user {
                    Some(u) => Some(*u),
                    None => None,
                },
            ),
    {
        let id = match caller {
            Ok(id) => id,
            Err(e) => {
                return Err(e);
            },
        };
        let a = match advert {
            Some(a) => a,
            None => {
                return Err(Failure::NotFound);
            },
        };
        let u = match user {
            Some(u) => u,
            None => {
                return Err(Failure::Auth(AuthError::Invalid));
            },
        };
        if u.id != id {
            return Err(Failure::Auth(AuthError::Invalid));
        }
        if u.role.staff() {
            return Ok(a.id);
        }
        if a.user_id != id {
            return Err(Failure::Auth(AuthError::Forbidden));
        }
        if a.sold_to.is_some() {
            return Err(Failure::Auth(AuthError::Forbidden));
        }
        Ok(a.id)
    }

    /// Decides a review and hands it out, as [`review_verdict`] says: the
    /// stars are 1 to 5; the owner may not review their own advert; only the
    /// one it was sold to may review it; and an advert has one review at
    /// most. `reviewed` says whether the advert has a review already.
    pub fn write_review(
        &self,
        caller: Result<i32, Failure>,
        advert: Option<&Advert>,
        rating: i32,
        reviewed: bool,
    ) -> (r: Result<Review, Failure>)
        ensures
            r == review_verdict(
                caller,
                match advert {
                    Some(a) => Some(*a),
                    None => None,
                },
                rating,
                reviewed,
            ),
    {
        if rating < 1 || rating > 5 {
            return Err(Failure::Validation);
        }
        let id = match caller {
            Ok(id) => id,
            Err(e) => {
                return Err(e);
            },
        };
        let a = match advert {
            Some(a) => a,
            None => {
                return Err(Failure::NotFound);
            },
        };
        if a.user_id == id {
            return Err(Failure::Auth(AuthError::Forbidden));
        }
        let sold_to_caller = match a.sold_to {
            Some(buyer) => buyer == id,
            None => false,
        };
        if !sold_to_caller {
            return Err(Failure::Auth(AuthError::Forbidden));
        }
        if reviewed {
            return Err(Failure::Validation);
        }
        Ok(Review { advert_id: a.id, user_id: id, rating })
    }
}

} // verus!
