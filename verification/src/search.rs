//! The advert search pipeline: filter, rate, filter by rating, sort, page.

use vstd::prelude::*;
use crate::model::{Advert, Rating, Review, Specification};
use crate::order::{
    arrange, arranged, goes_before, key_before, same_kind, sort_order, stable_order, SortKey,
};
use crate::rating::{rate_owner, rating_of, MAX_REVIEWS};
use crate::specs::{holds_pair, spec_pair, spec_set};
use crate::text::{chars_of, contains, contains_text};

verus! {

/// What a search can be sorted by.
#[derive(Clone, Copy, Debug, PartialEq, Eq, Structural)]
pub enum SortField {
    Rating,
    Price,
    Title,
}

/// A window of latitude and longitude, bounds included, in millionths of a
/// degree.
#[derive(Clone, Copy, Debug, PartialEq, Eq, Structural)]
pub struct GeoBox {
    pub lat_min: i64,
    pub lat_max: i64,
    pub lon_min: i64,
    pub lon_max: i64,
}

/// One browse request.
#[derive(Debug)]
pub struct SearchQuery {
    /// Exact category, if any.
    pub category: Option<String>,
    /// Text that the title has to contain; empty to admit every title.
    pub title: String,
    /// Lowest price admitted, included.
    pub min_price: Option<u64>,
    /// Highest price admitted, included.
    pub max_price: Option<u64>,
    /// Lowest owner rating admitted.
    pub min_rating: Option<Rating>,
    /// `rating`, `price` or `title`; anything else leaves the order alone.
    pub sort_field: Option<String>,
    /// `asc` in any case to ascend; anything else, or nothing, descends.
    pub sort_order: Option<String>,
    /// Where the advert has to lie, if anywhere.
    pub area: Option<GeoBox>,
    /// Key/value pairs that the advert's specifications must all hold.
    pub custom_fields: Vec<Specification>,
    /// How many results to skip.
    pub offset: usize,
    /// How many results to return at most; all that are left without it.
    pub page_size: Option<usize>,
}

/// The field that a name stands for.
pub open spec fn field_named(name: Seq<char>) -> Option<SortField> {
    if name == seq!['r', 'a', 't', 'i', 'n', 'g'] {
        Some(SortField::Rating)
    } else if name == seq!['p', 'r', 'i', 'c', 'e'] {
        Some(SortField::Price)
    } else if name == seq!['t', 'i', 't', 'l', 'e'] {
        Some(SortField::Title)
    } else {
        None
    }
}

/// The word asks for ascending order: `asc`, in any mix of cases.
pub open spec fn asks_ascending(word: Seq<char>) -> bool {
    &&& word.len() == 3
    &&& (word[0] == 'a' || word[0] == 'A')
    &&& (word[1] == 's' || word[1] == 'S')
    &&& (word[2] == 'c' || word[2] == 'C')
}

/// Whether a search descends: always, unless the order asks to ascend.
pub open spec fn descends(order: Option<String>) -> bool {
    !(order matches Some(word) && asks_ascending(word@))
}

/// Reads a sort field's name.
pub fn parse_field(name: &str) -> (r: Option<SortField>)
    ensures
        r == field_named(name@),
{
    let cs = chars_of(name);
    if cs.len() == 6 && cs[0] == 'r' && cs[1] == 'a' && cs[2] == 't' && cs[3] == 'i' && cs[4]
        == 'n' && cs[5] == 'g' {
        assert(cs@ =~= seq!['r', 'a', 't', 'i', 'n', 'g']);
        Some(SortField::Rating)
    } else if cs.len() == 5 && cs[0] == 'p' && cs[1] == 'r' && cs[2] == 'i' && cs[3] == 'c'
        && cs[4] == 'e' {
        assert(cs@ =~= seq!['p', 'r', 'i', 'c', 'e']);
        Some(SortField::Price)
    } else if cs.len() == 5 && cs[0] == 't' && cs[1] == 'i' && cs[2] == 't' && cs[3] == 'l'
        && cs[4] == 'e' {
        assert(cs@ =~= seq!['t', 'i', 't', 'l', 'e']);
        Some(SortField::Title)
    } else {
        None
    }
}

/// Reads a sort order.
pub fn parse_descending(order: &Option<String>) -> (r: bool)
    ensures
        r == descends(*order),
{
    match order {
        Some(word) => {
            let cs = chars_of(word.as_str());
            !(cs.len() == 3 && (cs[0] == 'a' || cs[0] == 'A') && (cs[1] == 's' || cs[1] == 'S')
                && (cs[2] == 'c' || cs[2] == 'C'))
        },
        None => true,
    }
}

/// The advert lies within the box, bounds included.
pub open spec fn lies_in(a: Advert, b: GeoBox) -> bool {
    b.lat_min <= a.lat <= b.lat_max && b.lon_min <= a.lon <= b.lon_max
}

/// The advert holds every one of the pairs asked for.
pub open spec fn holds_all(a: Advert, fields: Seq<Specification>) -> bool {
    forall|k: int| 0 <= k < fields.len() ==> spec_set(a.specs@).contains(#[trigger] spec_pair(fields[k]))
}

/// The advert passes the filters that need no rating: it is on offer, its
/// title contains the text, and category, price bounds, custom fields and
/// area fit wherever the query gives them.
pub open spec fn admits(q: SearchQuery, a: Advert) -> bool {
    &&& a.available
    &&& contains_text(a.title@, q.title@)
    &&& (q.category matches Some(c) ==> a.category@ == c@)
    &&& (q.min_price matches Some(low) ==> low <= a.price)
    &&& (q.max_price matches Some(high) ==> a.price <= high)
    &&& holds_all(a, q.custom_fields@)
    &&& (q.area matches Some(b) ==> lies_in(a, b))
}

/// The advert passes all filters: those of [`admits`], and its owner's rating
/// is not below the lowest admitted.
pub open spec fn keeps(q: SearchQuery, a: Advert, owned: Seq<Advert>, reviews: Seq<Review>) -> bool {
    &&& admits(q, a)
    &&& (q.min_rating matches Some(low) ==> !rating_of(a.user_id, owned, reviews).below(low))
}

/// The positions below `n` of the adverts in `pool` that pass all filters,
/// ascending.
pub open spec fn kept(
    q: SearchQuery,
    pool: Seq<Advert>,
    owned: Seq<Advert>,
    reviews: Seq<Review>,
    n: nat,
) -> Seq<usize>
    decreases n,
{
    if n == 0 {
        Seq::empty()
    } else {
        let before = kept(q, pool, owned, reviews, (n - 1) as nat);
        if keeps(q, pool[n - 1], owned, reviews) {
            before.push((n - 1) as usize)
        } else {
            before
        }
    }
}

/// What an advert is sorted by under `field`.
pub open spec fn key_of(field: SortField, a: Advert, owned: Seq<Advert>, reviews: Seq<Review>) -> SortKey {
    match field {
        SortField::Rating => SortKey::Score(rating_of(a.user_id, owned, reviews)),
        SortField::Price => SortKey::Count(a.price),
        SortField::Title => SortKey::Text(a.title),
    }
}

/// The sort keys of the adverts at the positions `at`.
pub open spec fn keys_at(
    field: SortField,
    pool: Seq<Advert>,
    at: Seq<usize>,
    owned: Seq<Advert>,
    reviews: Seq<Review>,
) -> Seq<SortKey> {
    Seq::new(at.len(), |k: int| key_of(field, pool[at[k] as int], owned, reviews))
}

/// The positions `at` sorted as the query asks: stably by the named field,
/// descending unless it asks to ascend; untouched without a field or with a
/// name that is none.
pub open spec fn sorted_at(
    q: SearchQuery,
    pool: Seq<Advert>,
    at: Seq<usize>,
    owned: Seq<Advert>,
    reviews: Seq<Review>,
) -> Seq<usize> {
    match q.sort_field {
        Some(name) => match field_named(name@) {
            Some(field) => arranged(
                at,
                stable_order(keys_at(field, pool, at, owned, reviews), descends(q.sort_order), at.len()),
            ),
            None => at,
        },
        None => at,
    }
}

/// Read in the order `at`, the adverts never step back under the query's
/// sort field: under no later one stands a key that belongs before an
/// earlier one's. Without a sort field, or with a name that is none, any
/// order will do.
pub open spec fn in_order(
    q: SearchQuery,
    pool: Seq<Advert>,
    at: Seq<usize>,
    owned: Seq<Advert>,
    reviews: Seq<Review>,
) -> bool {
    match q.sort_field {
        Some(name) => match field_named(name@) {
            Some(field) => forall|i: int, j: int|
                0 <= i < j < at.len() ==> {
                    let earlier = key_of(field, pool[(#[trigger] at[i]) as int], owned, reviews);
                    let later = key_of(field, pool[(#[trigger] at[j]) as int], owned, reviews);
                    if descends(q.sort_order) {
                        !key_before(earlier, later)
                    } else {
                        !key_before(later, earlier)
                    }
                },
            None => true,
        },
        None => true,
    }
}

/// The two queries filter and sort alike; they may differ in offset and
/// page size.
pub open spec fn same_filters(a: SearchQuery, b: SearchQuery) -> bool {
    &&& a.category == b.category
    &&& a.title == b.title
    &&& a.min_price == b.min_price
    &&& a.max_price == b.max_price
    &&& a.min_rating == b.min_rating
    &&& a.sort_field == b.sort_field
    &&& a.sort_order == b.sort_order
    &&& a.area == b.area
    &&& a.custom_fields == b.custom_fields
}

/// Queries that filter alike keep the same adverts.
pub proof fn same_filters_keep_alike(
    a: SearchQuery,
    b: SearchQuery,
    pool: Seq<Advert>,
    owned: Seq<Advert>,
    reviews: Seq<Review>,
    n: nat,
)
    requires
        same_filters(a, b),
    ensures
        kept(a, pool, owned, reviews, n) == kept(b, pool, owned, reviews, n),
    decreases n,
{
    if n > 0 {
        same_filters_keep_alike(a, b, pool, owned, reviews, (n - 1) as nat);
    }
}

/// Paging a search loses nothing and repeats nothing: the page of `n`
/// results at offset 0 followed by the page of `n` at offset `n` is the
/// first `2n` of all results, in their order.
pub proof fn search_pages_join(
    first: SearchQuery,
    second: SearchQuery,
    pool: Seq<Advert>,
    owned: Seq<Advert>,
    reviews: Seq<Review>,
    n: usize,
)
    requires
        same_filters(first, second),
        first.offset == 0,
        second.offset == n,
        first.page_size == Some(n),
        second.page_size == Some(n),
        2 * n <= usize::MAX,
    ensures
        search_page(first, pool, owned, reviews) + search_page(second, pool, owned, reviews) == {
            let all = search_all(first, pool, owned, reviews);
            if all.len() <= 2 * n {
                all
            } else {
                all.take(2 * n)
            }
        },
{
    same_filters_keep_alike(first, second, pool, owned, reviews, pool.len());
    pages_join(search_all(first, pool, owned, reviews), n);
}

/// One page of `s`: what follows the first `offset` members, cut at `size`
/// where one is given. Empty where `offset` is at or past the end.
pub open spec fn page(s: Seq<usize>, offset: nat, size: Option<usize>) -> Seq<usize> {
    if offset >= s.len() {
        Seq::empty()
    } else {
        let rest = s.skip(offset as int);
        match size {
            Some(n) => if rest.len() <= n {
                rest
            } else {
                rest.take(n as int)
            },
            None => rest,
        }
    }
}

/// The positions in `pool` of the adverts that all filters keep, sorted as
/// the query asks, before paging.
pub open spec fn search_all(
    q: SearchQuery,
    pool: Seq<Advert>,
    owned: Seq<Advert>,
    reviews: Seq<Review>,
) -> Seq<usize> {
    sorted_at(q, pool, kept(q, pool, owned, reviews, pool.len()), owned, reviews)
}

/// The positions in `pool` of the query's page of results.
pub open spec fn search_page(
    q: SearchQuery,
    pool: Seq<Advert>,
    owned: Seq<Advert>,
    reviews: Seq<Review>,
) -> Seq<usize> {
    page(search_all(q, pool, owned, reviews), q.offset as nat, q.page_size)
}

/// Two pages in a row make the first of double the size: the page at offset
/// 0 followed by the page at offset `n` is the first `2n` results.
pub proof fn pages_join(s: Seq<usize>, n: usize)
    requires
        2 * n <= usize::MAX,
    ensures
        page(s, 0, Some(n)) + page(s, n as nat, Some(n)) == page(s, 0, Some((2 * n) as usize)),
        page(s, 0, Some((2 * n) as usize)) == if s.len() <= 2 * n {
            s
        } else {
            s.take(2 * n)
        },
{
    assert(s.skip(0) =~= s);
    assert(page(s, 0, Some(n)) + page(s, n as nat, Some(n)) =~= page(
        s,
        0,
        Some((2 * n) as usize),
    ));
    if s.len() > 0 && s.len() > 2 * n {
        assert(s.skip(0).take(2 * n) =~= s.take(2 * n));
    }
}

/// Tests [`lies_in`].
pub fn within(a: &Advert, b: &GeoBox) -> (r: bool)
    ensures
        r == lies_in(*a, *b),
{
    b.lat_min <= a.lat && a.lat <= b.lat_max && b.lon_min <= a.lon && a.lon <= b.lon_max
}

/// Tests [`holds_all`].
pub fn has_all(a: &Advert, fields: &Vec<Specification>) -> (r: bool)
    ensures
        r == holds_all(*a, fields@),
{
    let mut k: usize = 0;
    while k < fields.len()
        invariant
            k <= fields@.len(),
            forall|j: int| 0 <= j < k ==> spec_set(a.specs@).contains(#[trigger] spec_pair(fields@[j])),
        decreases fields@.len() - k,
    {
        assert(a.specs@.take(a.specs@.len() as int) =~= a.specs@);
        if !holds_pair(&a.specs, a.specs.len(), &fields[k].key, &fields[k].value) {
            assert(spec_pair(fields@[k as int]) == (fields@[k as int].key@, fields@[k as int].value@));
            return false;
        }
        k += 1;
    }
    true
}

/// Tests [`admits`].
pub fn is_admitted(q: &SearchQuery, a: &Advert) -> (r: bool)
    ensures
        r == admits(*q, *a),
{
    if !a.available {
        return false;
    }
    if !contains(a.title.as_str(), q.title.as_str()) {
        return false;
    }
    match &q.category {
        Some(c) => {
            if a.category != *c {
                return false;
            }
        },
        None => {},
    }
    match q.min_price {
        Some(low) => {
            if a.price < low {
                return false;
            }
        },
        None => {},
    }
    match q.max_price {
        Some(high) => {
            if a.price > high {
                return false;
            }
        },
        None => {},
    }
    if !has_all(a, &q.custom_fields) {
        return false;
    }
    match &q.area {
        Some(b) => within(a, b),
        None => true,
    }
}

/// Tests [`keeps`].
pub fn is_kept(q: &SearchQuery, a: &Advert, owned: &Vec<Advert>, reviews: &Vec<Review>) -> (r: bool)
    requires
        reviews@.len() <= MAX_REVIEWS,
    ensures
        r == keeps(*q, *a, owned@, reviews@),
{
    if !is_admitted(q, a) {
        return false;
    }
    match &q.min_rating {
        Some(low) => {
            let rating = rate_owner(a.user_id, owned, reviews);
            !rating.is_below(low)
        },
        None => true,
    }
}

/// Every position is one of an advert in `pool` that all filters keep.
pub open spec fn kept_positions(
    q: SearchQuery,
    pool: Seq<Advert>,
    owned: Seq<Advert>,
    reviews: Seq<Review>,
    at: Seq<usize>,
) -> bool {
    &&& forall|k: int| 0 <= k < at.len() ==> (#[trigger] at[k]) < pool.len()
    &&& forall|k: int| 0 <= k < at.len() ==> keeps(q, pool[(#[trigger] at[k]) as int], owned, reviews)
}

/// The positions of the adverts that all filters keep.
pub fn filter(
    q: &SearchQuery,
    pool: &Vec<Advert>,
    owned: &Vec<Advert>,
    reviews: &Vec<Review>,
) -> (at: Vec<usize>)
    requires
        reviews@.len() <= MAX_REVIEWS,
    ensures
        at@ == kept(*q, pool@, owned@, reviews@, pool@.len()),
        kept_positions(*q, pool@, owned@, reviews@, at@),
{
    let mut at: Vec<usize> = Vec::new();
    let mut i: usize = 0;
    while i < pool.len()
        invariant
            i <= pool@.len(),
            reviews@.len() <= MAX_REVIEWS,
            at@ == kept(*q, pool@, owned@, reviews@, i as nat),
            kept_positions(*q, pool@, owned@, reviews@, at@),
        decreases pool@.len() - i,
    {
        if is_kept(q, &pool[i], owned, reviews) {
            at.push(i);
        }
        i += 1;
    }
    at
}

/// The sort key of an advert.
pub fn sort_key(
    field: SortField,
    a: &Advert,
    owned: &Vec<Advert>,
    reviews: &Vec<Review>,
) -> (key: SortKey)
    requires
        reviews@.len() <= MAX_REVIEWS,
    ensures
        key == key_of(field, *a, owned@, reviews@),
{
    match field {
        SortField::Rating => SortKey::Score(rate_owner(a.user_id, owned, reviews)),
        SortField::Price => SortKey::Count(a.price),
        SortField::Title => SortKey::Text(a.title.clone()),
    }
}

/// Sorts the positions `at` as the query asks.
pub fn sort(
    q: &SearchQuery,
    pool: &Vec<Advert>,
    at: Vec<usize>,
    owned: &Vec<Advert>,
    reviews: &Vec<Review>,
) -> (out: Vec<usize>)
    requires
        reviews@.len() <= MAX_REVIEWS,
        kept_positions(*q, pool@, owned@, reviews@, at@),
    ensures
        out@ == sorted_at(*q, pool@, at@, owned@, reviews@),
        kept_positions(*q, pool@, owned@, reviews@, out@),
        in_order(*q, pool@, out@, owned@, reviews@),
{
    let field = match &q.sort_field {
        Some(name) => parse_field(name.as_str()),
        None => None,
    };
    match field {
        Some(field) => {
            let descending = parse_descending(&q.sort_order);
            let mut keys: Vec<SortKey> = Vec::new();
            let mut k: usize = 0;
            while k < at.len()
                invariant
                    k <= at@.len(),
                    reviews@.len() <= MAX_REVIEWS,
                    kept_positions(*q, pool@, owned@, reviews@, at@),
                    keys@.len() == k,
                    forall|j: int|
                        0 <= j < k ==> keys@[j] == key_of(
                            field,
                            pool@[at@[j] as int],
                            owned@,
                            reviews@,
                        ),
                decreases at@.len() - k,
            {
                keys.push(sort_key(field, &pool[at[k]], owned, reviews));
                k += 1;
            }
            assert(keys@ =~= keys_at(field, pool@, at@, owned@, reviews@));
            proof {
                match field {
                    SortField::Rating => {
                        assert(forall|k: int| 0 <= k < keys@.len() ==> (#[trigger] keys@[k]) is Score);
                    },
                    SortField::Price => {
                        assert(forall|k: int| 0 <= k < keys@.len() ==> (#[trigger] keys@[k]) is Count);
                    },
                    SortField::Title => {
                        assert(forall|k: int| 0 <= k < keys@.len() ==> (#[trigger] keys@[k]) is Text);
                    },
                }
                assert(same_kind(keys@));
            }
            let order = sort_order(&keys, descending);
            let out = arrange(&at, &order);
            proof {
                assert forall|i: int, j: int| 0 <= i < j < out@.len() implies {
                    let earlier = key_of(field, pool@[(#[trigger] out@[i]) as int], owned@, reviews@);
                    let later = key_of(field, pool@[(#[trigger] out@[j]) as int], owned@, reviews@);
                    if descending {
                        !key_before(earlier, later)
                    } else {
                        !key_before(later, earlier)
                    }
                } by {
                    assert(!goes_before(keys@, descending, order@[j] as int, order@[i] as int));
                    assert(out@[i] == at@[order@[i] as int]);
                    assert(out@[j] == at@[order@[j] as int]);
                }
            }
            out
        },
        None => at,
    }
}

/// Cuts one page out of `s`.
pub fn paginate(s: &Vec<usize>, offset: usize, size: Option<usize>) -> (out: Vec<usize>)
    ensures
        out@ == page(s@, offset as nat, size),
        forall|k: int| 0 <= k < out@.len() ==> s@.contains(#[trigger] out@[k]),
        forall|k: int| 0 <= k < out@.len() ==> offset + k < s@.len() && out@[k] == s@[offset + k],
{
    let mut out: Vec<usize> = Vec::new();
    if offset >= s.len() {
        return out;
    }
    let cap: usize = match size {
        Some(n) => n,
        None => s.len(),
    };
    let mut i: usize = offset;
    while i < s.len() && out.len() < cap
        invariant
            offset <= i <= s@.len(),
            out@ == s@.skip(offset as int).take(i - offset),
            out@.len() <= cap,
            cap == (match size {
                Some(n) => n,
                None => s@.len() as usize,
            }),
            forall|k: int| 0 <= k < out@.len() ==> s@.contains(#[trigger] out@[k]),
            out@.len() == i - offset,
            forall|k: int| 0 <= k < out@.len() ==> out@[k] == s@[offset + k],
        decreases s@.len() - i,
    {
        out.push(s[i]);
        proof {
            assert(s@.skip(offset as int).take(i + 1 - offset) =~= s@.skip(offset as int).take(
                i - offset,
            ).push(s@[i as int]));
            assert(s@.contains(s@[i as int]));
        }
        i += 1;
    }
    proof {
        let rest = s@.skip(offset as int);
        assert(rest.take(rest.len() as int) =~= rest);
    }
    out
}

/// The positions in `pool` of the query's page of results: every advert that
/// passes all filters, sorted as asked, then paged.
///
/// Each result passes every filter; in particular its price lies within the
/// bounds that the query gives.
pub fn search(
    q: &SearchQuery,
    pool: &Vec<Advert>,
    owned: &Vec<Advert>,
    reviews: &Vec<Review>,
) -> (out: Vec<usize>)
    requires
        reviews@.len() <= MAX_REVIEWS,
    ensures
        out@ == search_page(*q, pool@, owned@, reviews@),
        kept_positions(*q, pool@, owned@, reviews@, out@),
        in_order(*q, pool@, out@, owned@, reviews@),
        forall|k: int|
            0 <= k < out@.len() ==> (q.min_price matches Some(low) ==> low <= pool@[(
            #[trigger] out@[k]) as int].price),
        forall|k: int|
            0 <= k < out@.len() ==> (q.max_price matches Some(high) ==> pool@[(
            #[trigger] out@[k]) as int].price <= high),
{
    let at = filter(q, pool, owned, reviews);
    let sorted = sort(q, pool, at, owned, reviews);
    let out = paginate(&sorted, q.offset, q.page_size);
    proof {
        assert forall|k: int| 0 <= k < out@.len() implies (#[trigger] out@[k]) < pool@.len() && keeps(
            *q,
            pool@[out@[k] as int],
            owned@,
            reviews@,
        ) by {
            let j = choose|j: int| 0 <= j < sorted@.len() && sorted@[j] == out@[k];
            assert(sorted@[j] < pool@.len());
        }
    }
    out
}

} // verus!
