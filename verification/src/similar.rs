//! The similar-adverts matcher: up to four other adverts on offer in the
//! reference's category, those with the same specification set first, then
//! the rest by how many specifications they share with the reference.

use vstd::prelude::*;
use crate::model::Advert;
use crate::order::{goes_before, is_arrangement, same_kind, sort_order, stable_order, SortKey};
use crate::specs::{same_set, shared_pairs, spec_set, spec_set_members};

verus! {

/// How many similar adverts are returned at most.
pub const SIMILAR_LIMIT: usize = 4;

/// `other` can be offered beside `reference`: it is on offer, is another
/// advert, and stands in the same category.
pub open spec fn is_candidate(reference: Advert, other: Advert) -> bool {
    &&& other.available
    &&& other.id != reference.id
    &&& other.category@ == reference.category@
}

/// A candidate whose specification set equals that of `reference`.
pub open spec fn is_exact(reference: Advert, other: Advert) -> bool {
    &&& is_candidate(reference, other)
    &&& spec_set(other.specs@) == spec_set(reference.specs@)
}

/// The number of specifications that `other` shares with `reference`.
pub open spec fn overlap(reference: Advert, other: Advert) -> nat {
    spec_set(reference.specs@).intersect(spec_set(other.specs@)).len()
}

/// The positions below `n` of the candidates in `pool`, ascending.
pub open spec fn candidates(reference: Advert, pool: Seq<Advert>, n: nat) -> Seq<usize>
    decreases n,
{
    if n == 0 {
        Seq::empty()
    } else {
        let before = candidates(reference, pool, (n - 1) as nat);
        if is_candidate(reference, pool[n - 1]) {
            before.push((n - 1) as usize)
        } else {
            before
        }
    }
}

/// The positions below `n` of the exact matches in `pool`, ascending.
pub open spec fn exact_matches(reference: Advert, pool: Seq<Advert>, n: nat) -> Seq<usize>
    decreases n,
{
    if n == 0 {
        Seq::empty()
    } else {
        let before = exact_matches(reference, pool, (n - 1) as nat);
        if is_exact(reference, pool[n - 1]) {
            before.push((n - 1) as usize)
        } else {
            before
        }
    }
}

/// The overlap with `reference` of the adverts at the positions `at`.
pub open spec fn overlap_keys(reference: Advert, pool: Seq<Advert>, at: Seq<usize>) -> Seq<
    SortKey,
> {
    Seq::new(at.len(), |k: int| SortKey::Count(overlap(reference, pool[at[k] as int]) as u64))
}

/// The positions `at` by descending overlap, ties in the order of `at`.
pub open spec fn ranked_at(reference: Advert, pool: Seq<Advert>, at: Seq<usize>) -> Seq<usize> {
    let order = stable_order(overlap_keys(reference, pool, at), true, at.len());
    Seq::new(order.len(), |k: int| at[order[k] as int])
}

/// The candidates' positions by descending overlap, ties in pool order.
pub open spec fn ranked(reference: Advert, pool: Seq<Advert>) -> Seq<usize> {
    ranked_at(reference, pool, candidates(reference, pool, pool.len()))
}

/// `s` without the members of `taken`, order kept.
pub open spec fn without(s: Seq<usize>, taken: Seq<usize>) -> Seq<usize>
    decreases s.len(),
{
    if s.len() == 0 {
        Seq::empty()
    } else {
        let before = without(s.drop_last(), taken);
        if taken.contains(s.last()) {
            before
        } else {
            before.push(s.last())
        }
    }
}

/// The first `n` members of `s`, or all of `s` where it has fewer.
pub open spec fn first_n(s: Seq<usize>, n: nat) -> Seq<usize> {
    if s.len() <= n {
        s
    } else {
        s.take(n as int)
    }
}

/// The positions in `pool` of the adverts similar to `reference`, best first:
/// the exact matches in pool order; where these are fewer than four, then the
/// other candidates by descending overlap; cut at four. Should that leave
/// nothing, the first four candidates.
pub open spec fn similar_positions(reference: Advert, pool: Seq<Advert>) -> Seq<usize> {
    let limit = SIMILAR_LIMIT as nat;
    let head = first_n(exact_matches(reference, pool, pool.len()), limit);
    let found = if head.len() >= limit {
        head
    } else {
        first_n(head + without(ranked(reference, pool), head), limit)
    };
    if found.len() == 0 {
        first_n(candidates(reference, pool, pool.len()), limit)
    } else {
        found
    }
}

/// Positions in `pool`, ascending, each a candidate.
pub open spec fn candidate_positions(reference: Advert, pool: Seq<Advert>, at: Seq<usize>) -> bool {
    &&& forall|k: int| 0 <= k < at.len() ==> (#[trigger] at[k]) < pool.len()
    &&& forall|k: int| 0 <= k < at.len() ==> is_candidate(reference, pool[(#[trigger] at[k]) as int])
    &&& forall|j: int, k: int| 0 <= j < k < at.len() ==> (#[trigger] at[j]) < (#[trigger] at[k])
}

/// Read in the order `at`, the overlap with `reference` never grows.
pub open spec fn by_falling_overlap(reference: Advert, pool: Seq<Advert>, at: Seq<usize>) -> bool {
    forall|p: int, q: int|
        0 <= p < q < at.len() ==> overlap(reference, pool[(#[trigger] at[q]) as int]) <= overlap(
            reference,
            pool[(#[trigger] at[p]) as int],
        )
}

/// No advert shares more with the reference than an exact match does.
pub proof fn exact_overlap_is_greatest(reference: Advert, exact: Advert, other: Advert)
    requires
        is_exact(reference, exact),
    ensures
        overlap(reference, other) <= overlap(reference, exact),
{
    let mine = spec_set(reference.specs@);
    spec_set_members(reference.specs@);
    vstd::set_lib::lemma_len_intersect(mine, spec_set(other.specs@));
    assert(mine.intersect(spec_set(exact.specs@)) =~= mine);
}

/// Tests [`is_candidate`].
pub fn candidate(reference: &Advert, other: &Advert) -> (r: bool)
    ensures
        r == is_candidate(*reference, *other),
{
    other.available && other.id != reference.id && other.category == reference.category
}

/// Tests [`is_exact`].
pub fn exact(reference: &Advert, other: &Advert) -> (r: bool)
    ensures
        r == is_exact(*reference, *other),
{
    candidate(reference, other) && same_set(&other.specs, &reference.specs)
}

/// The positions of the candidates in `pool`.
pub fn collect_candidates(reference: &Advert, pool: &Vec<Advert>) -> (at: Vec<usize>)
    ensures
        at@ == candidates(*reference, pool@, pool@.len()),
        candidate_positions(*reference, pool@, at@),
{
    let mut at: Vec<usize> = Vec::new();
    let mut i: usize = 0;
    while i < pool.len()
        invariant
            i <= pool@.len(),
            at@ == candidates(*reference, pool@, i as nat),
            candidate_positions(*reference, pool@, at@),
            forall|k: int| 0 <= k < at@.len() ==> (#[trigger] at@[k]) < i,
        decreases pool@.len() - i,
    {
        if candidate(reference, &pool[i]) {
            at.push(i);
        }
        i += 1;
    }
    at
}

/// The positions of the exact matches in `pool`: each is a candidate, and no
/// exact match is left out.
pub fn collect_exact(reference: &Advert, pool: &Vec<Advert>) -> (at: Vec<usize>)
    ensures
        at@ == exact_matches(*reference, pool@, pool@.len()),
        candidate_positions(*reference, pool@, at@),
        forall|k: int| 0 <= k < at@.len() ==> is_exact(*reference, pool@[(#[trigger] at@[k]) as int]),
        forall|j: int| 0 <= j < pool@.len() && is_exact(*reference, pool@[j]) ==> at@.contains(j as usize),
{
    let mut at: Vec<usize> = Vec::new();
    let mut i: usize = 0;
    while i < pool.len()
        invariant
            i <= pool@.len(),
            at@ == exact_matches(*reference, pool@, i as nat),
            candidate_positions(*reference, pool@, at@),
            forall|k: int| 0 <= k < at@.len() ==> (#[trigger] at@[k]) < i,
            forall|k: int| 0 <= k < at@.len() ==> is_exact(*reference, pool@[(#[trigger] at@[k]) as int]),
            forall|j: int| 0 <= j < i && is_exact(*reference, pool@[j]) ==> at@.contains(j as usize),
        decreases pool@.len() - i,
    {
        let ghost before = at@;
        if exact(reference, &pool[i]) {
            at.push(i);
            proof {
                assert(at@[before.len() as int] == i);
            }
        }
        proof {
            assert forall|j: int| 0 <= j < i + 1 && is_exact(*reference, pool@[j]) implies at@.contains(
                j as usize,
            ) by {
                if j < i {
                    let k = choose|k: int| 0 <= k < before.len() && before[k] == j as usize;
                    assert(at@[k] == j as usize);
                }
            }
        }
        i += 1;
    }
    at
}

/// The candidates at `at` by descending overlap with `reference`, ties in
/// the order of `at`.
pub fn rank(reference: &Advert, pool: &Vec<Advert>, at: &Vec<usize>) -> (out: Vec<usize>)
    requires
        candidate_positions(*reference, pool@, at@),
    ensures
        out@ == ranked_at(*reference, pool@, at@),
        candidate_positions_unordered(*reference, pool@, out@),
        out@.no_duplicates(),
        by_falling_overlap(*reference, pool@, out@),
{
    let mut keys: Vec<SortKey> = Vec::new();
    let mut i: usize = 0;
    while i < at.len()
        invariant
            i <= at@.len(),
            candidate_positions(*reference, pool@, at@),
            keys@.len() == i,
            forall|k: int|
                0 <= k < i ==> keys@[k] == SortKey::Count(
                    overlap(*reference, pool@[at@[k] as int]) as u64,
                ),
            forall|k: int| 0 <= k < i ==> overlap(*reference, pool@[at@[k] as int]) <= usize::MAX,
        decreases at@.len() - i,
    {
        let other = &pool[at[i]];
        proof {
            spec_set_members(reference.specs@);
            vstd::set_lib::lemma_len_intersect(spec_set(reference.specs@), spec_set(other.specs@));
            spec_set_len_bound(reference.specs@);
        }
        let shared = shared_pairs(&reference.specs, &other.specs);
        keys.push(SortKey::Count(shared as u64));
        i += 1;
    }
    assert(keys@ =~= overlap_keys(*reference, pool@, at@));
    assert(forall|k: int| 0 <= k < keys@.len() ==> (#[trigger] keys@[k]) is Count);
    assert(same_kind(keys@));
    let order = sort_order(&keys, true);
    let mut out: Vec<usize> = Vec::new();
    let mut k: usize = 0;
    while k < order.len()
        invariant
            k <= order@.len(),
            order@.len() == at@.len(),
            is_arrangement(order@, at@.len() as int),
            candidate_positions(*reference, pool@, at@),
            out@.len() == k,
            forall|j: int| 0 <= j < k ==> out@[j] == at@[order@[j] as int],
        decreases order@.len() - k,
    {
        out.push(at[order[k]]);
        k += 1;
    }
    proof {
        assert(out@ =~= ranked_at(*reference, pool@, at@));
        assert forall|p: int, q: int| 0 <= p < q < out@.len() implies overlap(
            *reference,
            pool@[(#[trigger] out@[q]) as int],
        ) <= overlap(*reference, pool@[(#[trigger] out@[p]) as int]) by {
            assert(!goes_before(keys@, true, order@[q] as int, order@[p] as int));
            assert(out@[p] == at@[order@[p] as int] && out@[q] == at@[order@[q] as int]);
        }
        assert forall|p: int, q: int| 0 <= p < q < out@.len() implies out@[p] != out@[q] by {
            let a = order@[p] as int;
            let b = order@[q] as int;
            assert(a != b);
            if a < b {
                assert(at@[a] < at@[b]);
            } else {
                assert(at@[b] < at@[a]);
            }
        }
    }
    out
}

/// Positions in `pool`, each a candidate.
pub open spec fn candidate_positions_unordered(
    reference: Advert,
    pool: Seq<Advert>,
    at: Seq<usize>,
) -> bool {
    &&& forall|k: int| 0 <= k < at.len() ==> (#[trigger] at[k]) < pool.len()
    &&& forall|k: int| 0 <= k < at.len() ==> is_candidate(reference, pool[(#[trigger] at[k]) as int])
}

/// A specification set has no more members than its list has entries.
proof fn spec_set_len_bound(specs: Seq<crate::model::Specification>)
    ensures
        spec_set(specs).len() <= specs.len(),
    decreases specs.len(),
{
    if specs.len() > 0 {
        spec_set_len_bound(specs.drop_last());
        spec_set_members(specs.drop_last());
    }
}

/// Tests whether `x` is a member of `v`.
pub fn is_member(v: &Vec<usize>, x: usize) -> (r: bool)
    ensures
        r == v@.contains(x),
{
    let mut i: usize = 0;
    while i < v.len()
        invariant
            i <= v@.len(),
            forall|k: int| 0 <= k < i ==> v@[k] != x,
        decreases v@.len() - i,
    {
        if v[i] == x {
            return true;
        }
        i += 1;
    }
    false
}

/// The first `n` members of `v`, or all of them where it has fewer.
pub fn take_first(v: &Vec<usize>, n: usize) -> (out: Vec<usize>)
    ensures
        out@ == first_n(v@, n as nat),
{
    let mut out: Vec<usize> = Vec::new();
    let mut i: usize = 0;
    while i < v.len() && i < n
        invariant
            i <= v@.len(),
            i <= n,
            out@ == v@.take(i as int),
        decreases v@.len() - i,
    {
        out.push(v[i]);
        assert(v@.take(i + 1) =~= v@.take(i as int).push(v@[i as int]));
        i += 1;
    }
    assert(v@.take(v@.len() as int) =~= v@);
    out
}

/// What `without` keeps of a prefix, it keeps of the whole, at the front.
proof fn without_of_prefix(s: Seq<usize>, taken: Seq<usize>, k: int)
    requires
        0 <= k <= s.len(),
    ensures
        without(s.take(k), taken).len() <= without(s, taken).len(),
        without(s, taken).take(without(s.take(k), taken).len() as int) == without(
            s.take(k),
            taken,
        ),
    decreases s.len(),
{
    if k == s.len() {
        assert(s.take(k) =~= s);
        assert(without(s, taken).take(without(s, taken).len() as int) =~= without(s, taken));
    } else {
        without_of_prefix(s.drop_last(), taken, k);
        assert(s.drop_last().take(k) =~= s.take(k));
        let part = without(s.take(k), taken);
        let init = without(s.drop_last(), taken);
        assert(without(s, taken).take(part.len() as int) =~= init.take(part.len() as int));
    }
}

/// Taking nothing out leaves everything in.
proof fn without_nothing(s: Seq<usize>)
    ensures
        without(s, Seq::empty()) == s,
    decreases s.len(),
{
    if s.len() > 0 {
        without_nothing(s.drop_last());
        assert(s.drop_last().push(s.last()) =~= s);
    }
}

/// Every candidate's position is among the candidates.
proof fn candidates_are_complete(reference: Advert, pool: Seq<Advert>, n: nat, j: int)
    requires
        0 <= j < n,
        is_candidate(reference, pool[j]),
    ensures
        candidates(reference, pool, n).len() > 0,
    decreases n,
{
    if j < n - 1 {
        candidates_are_complete(reference, pool, (n - 1) as nat, j);
    }
}

/// One step of [`without`] along a list.
proof fn without_step(s: Seq<usize>, taken: Seq<usize>, k: int)
    requires
        0 <= k < s.len(),
    ensures
        without(s.take(k + 1), taken) == if taken.contains(s[k]) {
            without(s.take(k), taken)
        } else {
            without(s.take(k), taken).push(s[k])
        },
{
    assert(s.take(k + 1).drop_last() =~= s.take(k));
    assert(s.take(k + 1).last() == s[k]);
}

/// The positions in `pool` of the adverts similar to `reference`, best first.
///
/// At most four, each the position of a candidate (on offer, not the
/// reference itself, same category), none twice, no exact match behind an
/// advert that is none, and the overlap with the reference never growing.
/// Nothing is returned only where there is no candidate.
pub fn find_similar(reference: &Advert, pool: &Vec<Advert>) -> (out: Vec<usize>)
    ensures
        out@ == similar_positions(*reference, pool@),
        out@.len() <= SIMILAR_LIMIT,
        candidate_positions_unordered(*reference, pool@, out@),
        out@.no_duplicates(),
        forall|p: int, q: int|
            0 <= p < q < out@.len() && is_exact(*reference, pool@[(#[trigger] out@[q]) as int])
                ==> is_exact(*reference, pool@[(#[trigger] out@[p]) as int]),
        by_falling_overlap(*reference, pool@, out@),
        out@.len() == 0 <==> candidates(*reference, pool@, pool@.len()).len() == 0,
{
    let all_exact = collect_exact(reference, pool);
    let head = take_first(&all_exact, SIMILAR_LIMIT);
    assert(forall|k: int| 0 <= k < head@.len() ==> head@[k] == all_exact@[k]);
    proof {
        assert forall|p: int, q: int| 0 <= p < q < head@.len() implies overlap(
            *reference,
            pool@[(#[trigger] head@[q]) as int],
        ) <= overlap(*reference, pool@[(#[trigger] head@[p]) as int]) by {
            exact_overlap_is_greatest(*reference, pool@[head@[p] as int], pool@[head@[q] as int]);
        }
    }
    if head.len() >= SIMILAR_LIMIT {
        proof {
            candidates_are_complete(*reference, pool@, pool@.len(), head@[0] as int);
        }
        return head;
    }
    assert(head@ == all_exact@);
    let at = collect_candidates(reference, pool);
    let by_overlap = rank(reference, pool, &at);
    assert(by_overlap@ == ranked(*reference, pool@));
    let mut out: Vec<usize> = take_first(&head, SIMILAR_LIMIT);
    assert(out@ =~= head@ + without(by_overlap@.take(0), head@));
    let mut k: usize = 0;
    let ghost mut from: Seq<int> = Seq::empty();
    while k < by_overlap.len() && out.len() < SIMILAR_LIMIT
        invariant
            from.len() == out@.len() - head@.len(),
            forall|j: int| 0 <= j < from.len() ==> 0 <= (#[trigger] from[j]) < k,
            forall|j: int| 0 <= j < from.len() ==> by_overlap@[#[trigger] from[j]] == out@[head@.len() + j],
            forall|i: int, j: int| 0 <= i < j < from.len() ==> (#[trigger] from[i]) < (#[trigger] from[j]),
            by_falling_overlap(*reference, pool@, by_overlap@),
            k <= by_overlap@.len(),
            out@ == head@ + without(by_overlap@.take(k as int), head@),
            out@.len() <= SIMILAR_LIMIT,
            head@.len() < SIMILAR_LIMIT,
            head@ == all_exact@,
            candidate_positions(*reference, pool@, head@),
            candidate_positions_unordered(*reference, pool@, by_overlap@),
            by_overlap@.no_duplicates(),
            candidate_positions_unordered(*reference, pool@, out@),
            out@.no_duplicates(),
            forall|j: int| head@.len() <= j < out@.len() ==> !head@.contains(#[trigger] out@[j]),
        decreases by_overlap@.len() - k,
    {
        let x = by_overlap[k];
        let ghost before = out@;
        proof {
            without_step(by_overlap@, head@, k as int);
        }
        if !is_member(&head, x) {
            out.push(x);
            proof {
                let ghost old_from = from;
                from = from.push(k as int);
                assert(out@ =~= head@ + without(by_overlap@.take(k + 1), head@));
                assert forall|p: int, q: int| 0 <= p < q < out@.len() implies out@[p] != out@[q] by {
                    if q == before.len() {
                        if p < head@.len() {
                            assert(before[p] == head@[p]);
                        } else {
                            let m = old_from[p - head@.len()];
                            assert(by_overlap@[m] == before[p]);
                            assert(by_overlap@[m] != by_overlap@[k as int]);
                        }
                    } else {
                        assert(before[p] != before[q]);
                    }
                }
                assert forall|j: int| 0 <= j < from.len() implies by_overlap@[#[trigger] from[j]]
                    == out@[head@.len() + j] by {
                    if j < old_from.len() {
                        assert(from[j] == old_from[j]);
                        assert(out@[head@.len() + j] == before[head@.len() + j]);
                    }
                }
            }
        }
        k += 1;
    }
    proof {
        let rest = without(by_overlap@, head@);
        without_of_prefix(by_overlap@, head@, k as int);
        let part = without(by_overlap@.take(k as int), head@);
        if k == by_overlap@.len() {
            assert(by_overlap@.take(k as int) =~= by_overlap@);
        } else {
            assert((head@ + rest).take(SIMILAR_LIMIT as int) =~= head@ + rest.take(
                part.len() as int,
            ));
        }
        assert(out@ == first_n(head@ + rest, SIMILAR_LIMIT as nat));
        assert forall|p: int, q: int| 0 <= p < q < out@.len() implies overlap(
            *reference,
            pool@[(#[trigger] out@[q]) as int],
        ) <= overlap(*reference, pool@[(#[trigger] out@[p]) as int]) by {
            if p < head@.len() {
                assert(out@[p] == head@[p]);
                exact_overlap_is_greatest(*reference, pool@[out@[p] as int], pool@[out@[q] as int]);
            } else {
                let a = from[p - head@.len()];
                let b = from[q - head@.len()];
                assert(by_overlap@[a] == out@[p] && by_overlap@[b] == out@[q]);
                assert(a < b);
            }
        }
        assert forall|p: int, q: int|
            0 <= p < q < out@.len() && is_exact(
                *reference,
                pool@[(#[trigger] out@[q]) as int],
            ) implies is_exact(*reference, pool@[(#[trigger] out@[p]) as int]) by {
            if q >= head@.len() {
                assert(!head@.contains(out@[q]));
                assert(all_exact@.contains(out@[q] as int as usize));
            } else {
                assert(out@[p] == head@[p]);
            }
        }
    }
    proof {
        if out@.len() > 0 {
            candidates_are_complete(*reference, pool@, pool@.len(), out@[0] as int);
        } else {
            assert(head@ =~= Seq::<usize>::empty());
            without_nothing(by_overlap@.take(k as int));
        }
    }
    if out.len() == 0 {
        let fallback = take_first(&at, SIMILAR_LIMIT);
        proof {
            assert forall|j: int| 0 <= j < pool@.len() implies !is_exact(*reference, pool@[j]) by {
                if is_exact(*reference, pool@[j]) {
                    assert(all_exact@.contains(j as usize));
                }
            }
            assert(forall|k: int| 0 <= k < fallback@.len() ==> fallback@[k] == at@[k]);
        }
        return fallback;
    }
    out
}

} // verus!
