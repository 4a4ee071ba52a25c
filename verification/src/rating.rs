//! The rating of an advert's owner: the mean of the stars of all reviews on
//! that owner's adverts, and what a viewer sees of an advert.

use vstd::prelude::*;
use crate::model::{Advert, Favorite, Rating, Review};

verus! {

/// The most reviews that one rating is computed from: with no more, the
/// stars are sure to sum up within an `i64`.
pub const MAX_REVIEWS: usize = 0xffff_ffff;

/// The owner of the advert `advert_id` as `adverts` records it. Where the id
/// occurs more than once the last record counts.
pub open spec fn owner_of(adverts: Seq<Advert>, advert_id: i32) -> Option<i32>
    decreases adverts.len(),
{
    if adverts.len() == 0 {
        None
    } else if adverts.last().id == advert_id {
        Some(adverts.last().user_id)
    } else {
        owner_of(adverts.drop_last(), advert_id)
    }
}

/// The review is on an advert of `owner`.
pub open spec fn concerns(owner: i32, adverts: Seq<Advert>, review: Review) -> bool {
    owner_of(adverts, review.advert_id) == Some(owner)
}

/// The sum of the stars of the reviews on adverts of `owner`.
pub open spec fn stars_total(owner: i32, adverts: Seq<Advert>, reviews: Seq<Review>) -> int
    decreases reviews.len(),
{
    if reviews.len() == 0 {
        0
    } else {
        stars_total(owner, adverts, reviews.drop_last()) + if concerns(
            owner,
            adverts,
            reviews.last(),
        ) {
            reviews.last().rating as int
        } else {
            0
        }
    }
}

/// The number of reviews on adverts of `owner`.
pub open spec fn reviews_count(owner: i32, adverts: Seq<Advert>, reviews: Seq<Review>) -> int
    decreases reviews.len(),
{
    if reviews.len() == 0 {
        0
    } else {
        reviews_count(owner, adverts, reviews.drop_last()) + if concerns(
            owner,
            adverts,
            reviews.last(),
        ) {
            1int
        } else {
            0int
        }
    }
}

/// `r` is the rating of `owner`: the stars and the number of the reviews on
/// all of that owner's adverts. Without reviews both are zero.
pub open spec fn is_rating_of(r: Rating, owner: i32, adverts: Seq<Advert>, reviews: Seq<Review>) -> bool {
    &&& r.total == stars_total(owner, adverts, reviews)
    &&& r.count == reviews_count(owner, adverts, reviews)
}

/// The rating of `owner` as a value.
pub open spec fn rating_of(owner: i32, adverts: Seq<Advert>, reviews: Seq<Review>) -> Rating {
    Rating {
        total: stars_total(owner, adverts, reviews) as i64,
        count: reviews_count(owner, adverts, reviews) as u64,
    }
}

/// The sums stay within what the number of reviews allows.
pub proof fn rating_bounds(owner: i32, adverts: Seq<Advert>, reviews: Seq<Review>)
    ensures
        0 <= reviews_count(owner, adverts, reviews) <= reviews.len(),
        -0x8000_0000 * reviews.len() <= stars_total(owner, adverts, reviews) <= 0x7fff_ffff
            * reviews.len(),
    decreases reviews.len(),
{
    if reviews.len() > 0 {
        rating_bounds(owner, adverts, reviews.drop_last());
    }
}

/// Looks up the owner of an advert.
pub fn find_owner(adverts: &Vec<Advert>, advert_id: i32) -> (r: Option<i32>)
    ensures
        r == owner_of(adverts@, advert_id),
{
    let mut found: Option<i32> = None;
    let mut i: usize = 0;
    while i < adverts.len()
        invariant
            i <= adverts@.len(),
            found == owner_of(adverts@.take(i as int), advert_id),
        decreases adverts@.len() - i,
    {
        assert(adverts@.take(i + 1).drop_last() =~= adverts@.take(i as int));
        if adverts[i].id == advert_id {
            found = Some(adverts[i].user_id);
        }
        i += 1;
    }
    assert(adverts@.take(adverts@.len() as int) =~= adverts@);
    found
}

/// The rating of `owner`, from the adverts that say who owns what and the
/// reviews on them.
pub fn rate_owner(owner: i32, adverts: &Vec<Advert>, reviews: &Vec<Review>) -> (r: Rating)
    requires
        reviews@.len() <= MAX_REVIEWS,
    ensures
        is_rating_of(r, owner, adverts@, reviews@),
        r == rating_of(owner, adverts@, reviews@),
{
    let mut total: i64 = 0;
    let mut count: u64 = 0;
    let mut i: usize = 0;
    while i < reviews.len()
        invariant
            i <= reviews@.len() <= MAX_REVIEWS,
            total == stars_total(owner, adverts@, reviews@.take(i as int)),
            count == reviews_count(owner, adverts@, reviews@.take(i as int)),
        decreases reviews@.len() - i,
    {
        proof {
            rating_bounds(owner, adverts@, reviews@.take(i as int));
            assert(reviews@.take(i + 1).drop_last() =~= reviews@.take(i as int));
        }
        let who = find_owner(adverts, reviews[i].advert_id);
        let hit = match who {
            Some(u) => u == owner,
            None => false,
        };
        if hit {
            total = total + reviews[i].rating as i64;
            count = count + 1;
        }
        i += 1;
    }
    assert(reviews@.take(reviews@.len() as int) =~= reviews@);
    Rating { total, count }
}

/// `user` has bookmarked the advert `advert_id`.
pub open spec fn is_favorite(favorites: Seq<Favorite>, user: i32, advert_id: i32) -> bool {
    exists|k: int|
        0 <= k < favorites.len() && (#[trigger] favorites[k]).user_id == user && favorites[k].advert_id
            == advert_id
}

/// Tests [`is_favorite`].
pub fn has_favorite(favorites: &Vec<Favorite>, user: i32, advert_id: i32) -> (r: bool)
    ensures
        r == is_favorite(favorites@, user, advert_id),
{
    let mut i: usize = 0;
    while i < favorites.len()
        invariant
            i <= favorites@.len(),
            forall|k: int|
                0 <= k < i ==> !((#[trigger] favorites@[k]).user_id == user && favorites@[k].advert_id
                    == advert_id),
        decreases favorites@.len() - i,
    {
        if favorites[i].user_id == user && favorites[i].advert_id == advert_id {
            return true;
        }
        i += 1;
    }
    false
}

/// An advert as a viewer sees it: with the viewer's bookmark and the owner's
/// rating.
#[derive(Clone, Copy, Debug)]
pub struct Listing<'a> {
    pub advert: &'a Advert,
    /// True only for an identified viewer who has bookmarked the advert.
    pub is_favorited: bool,
    /// The rating of the advert's owner.
    pub user_rating: Rating,
}

/// `l` shows `advert` to `viewer`.
pub open spec fn is_listing_of(
    l: Listing,
    advert: Advert,
    viewer: Option<i32>,
    favorites: Seq<Favorite>,
    adverts: Seq<Advert>,
    reviews: Seq<Review>,
) -> bool {
    &&& *l.advert == advert
    &&& l.is_favorited == (viewer matches Some(u) && is_favorite(favorites, u, advert.id))
    &&& is_rating_of(l.user_rating, advert.user_id, adverts, reviews)
    &&& l.user_rating == rating_of(advert.user_id, adverts, reviews)
}

/// Shows `advert` to `viewer`.
pub fn list<'a>(
    advert: &'a Advert,
    viewer: Option<i32>,
    favorites: &Vec<Favorite>,
    adverts: &Vec<Advert>,
    reviews: &Vec<Review>,
) -> (l: Listing<'a>)
    requires
        reviews@.len() <= MAX_REVIEWS,
    ensures
        is_listing_of(l, *advert, viewer, favorites@, adverts@, reviews@),
{
    let is_favorited = match viewer {
        Some(u) => has_favorite(favorites, u, advert.id),
        None => false,
    };
    Listing { advert, is_favorited, user_rating: rate_owner(advert.user_id, adverts, reviews) }
}

/// `out` shows to `viewer`, in order, the adverts at the positions `at` of
/// `pool`.
pub open spec fn shows(
    out: Seq<Listing>,
    pool: Seq<Advert>,
    at: Seq<usize>,
    viewer: Option<i32>,
    favorites: Seq<Favorite>,
    adverts: Seq<Advert>,
    reviews: Seq<Review>,
) -> bool {
    &&& out.len() == at.len()
    &&& forall|k: int|
        0 <= k < at.len() ==> is_listing_of(
            #[trigger] out[k],
            pool[at[k] as int],
            viewer,
            favorites,
            adverts,
            reviews,
        )
}

/// Shows to `viewer` the adverts at the positions `at` of `pool`.
pub fn list_at<'a>(
    pool: &'a Vec<Advert>,
    at: &Vec<usize>,
    viewer: Option<i32>,
    favorites: &Vec<Favorite>,
    adverts: &Vec<Advert>,
    reviews: &Vec<Review>,
) -> (out: Vec<Listing<'a>>)
    requires
        reviews@.len() <= MAX_REVIEWS,
        forall|k: int| 0 <= k < at@.len() ==> (#[trigger] at@[k]) < pool@.len(),
    ensures
        shows(out@, pool@, at@, viewer, favorites@, adverts@, reviews@),
{
    let mut out: Vec<Listing<'a>> = Vec::new();
    let mut k: usize = 0;
    while k < at.len()
        invariant
            k <= at@.len(),
            reviews@.len() <= MAX_REVIEWS,
            forall|j: int| 0 <= j < at@.len() ==> (#[trigger] at@[j]) < pool@.len(),
            out@.len() == k,
            forall|j: int|
                0 <= j < k ==> is_listing_of(
                    #[trigger] out@[j],
                    pool@[at@[j] as int],
                    viewer,
                    favorites@,
                    adverts@,
                    reviews@,
                ),
        decreases at@.len() - k,
    {
        out.push(list(&pool[at[k]], viewer, favorites, adverts, reviews));
        k += 1;
    }
    out
}

} // verus!
