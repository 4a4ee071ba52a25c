//! A stable sort that returns positions: the order in which to read a list
//! of keys so that they ascend (or descend), ties staying in input order.

use vstd::prelude::*;
use crate::model::Rating;
use crate::text::{less_than, text_lt, text_lt_asymmetric, text_lt_cut};

verus! {

/// What a list can be sorted by.
#[derive(Debug)]
pub enum SortKey {
    /// A count or an amount.
    Count(u64),
    /// A mean of stars.
    Score(Rating),
    /// A text, ordered by code point.
    Text(String),
}

/// `a` is strictly smaller than `b`. Keys of different kinds are never smaller
/// than one another.
pub open spec fn key_before(a: SortKey, b: SortKey) -> bool {
    match (a, b) {
        (SortKey::Count(x), SortKey::Count(y)) => x < y,
        (SortKey::Score(x), SortKey::Score(y)) => x.below(y),
        (SortKey::Text(x), SortKey::Text(y)) => text_lt(x@, y@),
        _ => false,
    }
}

/// The keys are all of one kind.
pub open spec fn same_kind(keys: Seq<SortKey>) -> bool {
    ||| forall|k: int| 0 <= k < keys.len() ==> (#[trigger] keys[k]) is Count
    ||| forall|k: int| 0 <= k < keys.len() ==> (#[trigger] keys[k]) is Score
    ||| forall|k: int| 0 <= k < keys.len() ==> (#[trigger] keys[k]) is Text
}

/// No key is both smaller and larger than another.
pub proof fn key_before_asymmetric(a: SortKey, b: SortKey)
    ensures
        key_before(a, b) ==> !key_before(b, a),
{
    match (a, b) {
        (SortKey::Text(x), SortKey::Text(y)) => {
            text_lt_asymmetric(x@, y@);
        },
        _ => {},
    }
}

/// Among keys of one kind, a key that is smaller than another is smaller
/// than any third, or the third is smaller than the other.
pub proof fn key_before_cuts(a: SortKey, b: SortKey, c: SortKey)
    requires
        same_kind(seq![a, b, c]),
    ensures
        key_before(a, c) ==> key_before(a, b) || key_before(b, c),
{
    let keys = seq![a, b, c];
    assert(keys[0] == a && keys[1] == b && keys[2] == c);
    match (a, b, c) {
        (SortKey::Text(x), SortKey::Text(y), SortKey::Text(z)) => {
            text_lt_cut(x@, y@, z@);
        },
        (SortKey::Score(x), SortKey::Score(y), SortKey::Score(z)) => {
            x.below_cuts(y, z);
        },
        _ => {},
    }
}

/// Tests [`key_before`].
pub fn key_is_before(a: &SortKey, b: &SortKey) -> (r: bool)
    ensures
        r == key_before(*a, *b),
{
    match (a, b) {
        (SortKey::Count(x), SortKey::Count(y)) => *x < *y,
        (SortKey::Score(x), SortKey::Score(y)) => x.is_below(y),
        (SortKey::Text(x), SortKey::Text(y)) => less_than(x.as_str(), y.as_str()),
        _ => false,
    }
}

/// The key at `x` has to stand before the key at `y`: it is smaller when
/// ascending, larger when descending.
pub open spec fn goes_before(keys: Seq<SortKey>, descending: bool, x: int, y: int) -> bool {
    if descending {
        key_before(keys[y], keys[x])
    } else {
        key_before(keys[x], keys[y])
    }
}

/// Tests [`goes_before`].
pub fn must_precede(keys: &Vec<SortKey>, descending: bool, x: usize, y: usize) -> (r: bool)
    requires
        x < keys@.len(),
        y < keys@.len(),
    ensures
        r == goes_before(keys@, descending, x as int, y as int),
{
    if descending {
        key_is_before(&keys[y], &keys[x])
    } else {
        key_is_before(&keys[x], &keys[y])
    }
}

/// `order` with `x` put in behind the last position that need not follow it.
pub open spec fn place(order: Seq<usize>, keys: Seq<SortKey>, descending: bool, x: usize) -> Seq<
    usize,
>
    decreases order.len(),
{
    if order.len() == 0 {
        seq![x]
    } else if goes_before(keys, descending, x as int, order.last() as int) {
        place(order.drop_last(), keys, descending, x).push(order.last())
    } else {
        order.push(x)
    }
}

/// The stable order of the first `n` keys: each position in turn is put in
/// behind everything that it need not precede.
pub open spec fn stable_order(keys: Seq<SortKey>, descending: bool, n: nat) -> Seq<usize>
    decreases n,
{
    if n == 0 {
        Seq::empty()
    } else {
        place(stable_order(keys, descending, (n - 1) as nat), keys, descending, (n - 1) as usize)
    }
}

/// The positions `at` read in `order`.
pub open spec fn arranged(at: Seq<usize>, order: Seq<usize>) -> Seq<usize> {
    Seq::new(order.len(), |k: int| at[order[k] as int])
}

/// `order` lists each position below `n` exactly once.
pub open spec fn is_arrangement(order: Seq<usize>, n: int) -> bool {
    &&& order.len() == n
    &&& order.no_duplicates()
    &&& forall|k: int| 0 <= k < order.len() ==> (#[trigger] order[k]) < n
}

/// Read in `order`, the keys never step back: no later key has to stand
/// before an earlier one.
pub open spec fn is_sorted(order: Seq<usize>, keys: Seq<SortKey>, descending: bool) -> bool {
    forall|p: int, q: int|
        0 <= p < q < order.len() ==> !goes_before(
            keys,
            descending,
            #[trigger] order[q] as int,
            #[trigger] order[p] as int,
        )
}

/// Positions whose keys tie stay in input order.
pub open spec fn is_stable(order: Seq<usize>, keys: Seq<SortKey>, descending: bool) -> bool {
    forall|p: int, q: int|
        0 <= p < q < order.len() && !goes_before(
            keys,
            descending,
            #[trigger] order[p] as int,
            #[trigger] order[q] as int,
        ) ==> order[p] < order[q]
}

/// Three keys out of a list of one kind are of one kind.
proof fn same_kind_of_three(keys: Seq<SortKey>, a: int, b: int, c: int)
    requires
        same_kind(keys),
        0 <= a < keys.len(),
        0 <= b < keys.len(),
        0 <= c < keys.len(),
    ensures
        same_kind(seq![keys[a], keys[b], keys[c]]),
{
    let three = seq![keys[a], keys[b], keys[c]];
    assert(three[0] == keys[a] && three[1] == keys[b] && three[2] == keys[c]);
    if forall|k: int| 0 <= k < keys.len() ==> (#[trigger] keys[k]) is Count {
        assert(forall|k: int| 0 <= k < three.len() ==> (#[trigger] three[k]) is Count);
    } else if forall|k: int| 0 <= k < keys.len() ==> (#[trigger] keys[k]) is Score {
        assert(forall|k: int| 0 <= k < three.len() ==> (#[trigger] three[k]) is Score);
    } else {
        assert(forall|k: int| 0 <= k < three.len() ==> (#[trigger] three[k]) is Text);
    }
}

/// Where `place` puts `x`: at `pos`, when `x` has to precede all from `pos`
/// on and not the one before.
proof fn place_is_insert(
    order: Seq<usize>,
    keys: Seq<SortKey>,
    descending: bool,
    x: usize,
    pos: int,
)
    requires
        0 <= pos <= order.len(),
        forall|k: int| pos <= k < order.len() ==> goes_before(keys, descending, x as int, order[k] as int),
        pos > 0 ==> !goes_before(keys, descending, x as int, order[pos - 1] as int),
    ensures
        place(order, keys, descending, x) == order.insert(pos, x),
    decreases order.len(),
{
    if order.len() == 0 {
        assert(order.insert(pos, x) =~= seq![x]);
    } else if pos == order.len() {
        assert(order.insert(pos, x) =~= order.push(x));
    } else {
        place_is_insert(order.drop_last(), keys, descending, x, pos);
        assert(order.insert(pos, x) =~= order.drop_last().insert(pos, x).push(order.last()));
    }
}

/// Where `place` puts `x` into `order`.
pub open spec fn place_of(order: Seq<usize>, keys: Seq<SortKey>, descending: bool, x: usize) -> int
    decreases order.len(),
{
    if order.len() == 0 {
        0
    } else if goes_before(keys, descending, x as int, order.last() as int) {
        place_of(order.drop_last(), keys, descending, x)
    } else {
        order.len() as int
    }
}

/// `place` puts `x` before all that it has to precede at the end of `order`,
/// and behind one that it need not precede.
proof fn place_of_is_right(order: Seq<usize>, keys: Seq<SortKey>, descending: bool, x: usize)
    ensures
        ({
            let pos = place_of(order, keys, descending, x);
            &&& 0 <= pos <= order.len()
            &&& forall|k: int|
                pos <= k < order.len() ==> goes_before(keys, descending, x as int, order[k] as int)
            &&& pos > 0 ==> !goes_before(keys, descending, x as int, order[pos - 1] as int)
            &&& place(order, keys, descending, x) == order.insert(pos, x)
        }),
    decreases order.len(),
{
    if order.len() > 0 && goes_before(keys, descending, x as int, order.last() as int) {
        place_of_is_right(order.drop_last(), keys, descending, x);
    }
    let pos = place_of(order, keys, descending, x);
    assert forall|k: int| pos <= k < order.len() implies goes_before(
        keys,
        descending,
        x as int,
        order[k] as int,
    ) by {
        if k < order.len() - 1 {
            assert(order.drop_last()[k] == order[k]);
        }
    }
    if pos > 0 && pos < order.len() {
        assert(order.drop_last()[pos - 1] == order[pos - 1]);
    }
    place_is_insert(order, keys, descending, x, pos);
}

/// Putting the next position in keeps an order an arrangement, stable, and,
/// among keys of one kind, sorted.
proof fn placing_keeps_laws(
    before: Seq<usize>,
    keys: Seq<SortKey>,
    descending: bool,
    x: usize,
    pos: int,
)
    requires
        x < keys.len(),
        0 <= pos <= before.len(),
        is_arrangement(before, x as int),
        is_stable(before, keys, descending),
        same_kind(keys) ==> is_sorted(before, keys, descending),
        forall|k: int| pos <= k < before.len() ==> goes_before(keys, descending, x as int, before[k] as int),
        pos > 0 ==> !goes_before(keys, descending, x as int, before[pos - 1] as int),
    ensures
        is_arrangement(before.insert(pos, x), x + 1),
        is_stable(before.insert(pos, x), keys, descending),
        same_kind(keys) ==> is_sorted(before.insert(pos, x), keys, descending),
{
    let after = before.insert(pos, x);
    if same_kind(keys) {
        assert forall|p: int, q: int| 0 <= p < q < after.len() implies !goes_before(
            keys,
            descending,
            #[trigger] after[q] as int,
            #[trigger] after[p] as int,
        ) by {
            let bp = if p < pos { p } else { p - 1 };
            let bq = if q < pos { q } else { q - 1 };
            if p != pos && q != pos {
                assert(after[p] == before[bp] && after[q] == before[bq]);
            } else if p == pos {
                assert(after[q] == before[bq]);
                assert(goes_before(keys, descending, x as int, before[bq] as int));
                key_before_asymmetric(keys[x as int], keys[before[bq] as int]);
                key_before_asymmetric(keys[before[bq] as int], keys[x as int]);
            } else {
                assert(after[p] == before[p]);
                let e = before[p] as int;
                let m = before[pos - 1] as int;
                assert(!goes_before(keys, descending, x as int, m));
                if p < pos - 1 {
                    assert(!goes_before(keys, descending, before[pos - 1] as int, before[p] as int));
                }
                same_kind_of_three(keys, x as int, m, e);
                same_kind_of_three(keys, e, m, x as int);
                key_before_cuts(keys[x as int], keys[m], keys[e]);
                key_before_cuts(keys[e], keys[m], keys[x as int]);
            }
        }
    }
    assert forall|k: int| 0 <= k < after.len() implies (#[trigger] after[k]) < x + 1 by {
        if k < pos {
            assert(after[k] == before[k]);
        } else if k > pos {
            assert(after[k] == before[k - 1]);
        }
    }
    assert forall|p: int, q: int| 0 <= p < q < after.len() implies after[p] != after[q] by {
        let bp = if p < pos { p } else { p - 1 };
        let bq = if q < pos { q } else { q - 1 };
        if p != pos && q != pos {
            assert(after[p] == before[bp] && after[q] == before[bq]);
        } else if p == pos {
            assert(after[q] == before[bq]);
        } else {
            assert(after[p] == before[bp]);
        }
    }
    assert forall|p: int, q: int|
        0 <= p < q < after.len() && !goes_before(
            keys,
            descending,
            #[trigger] after[p] as int,
            #[trigger] after[q] as int,
        ) implies after[p] < after[q] by {
        let bp = if p < pos { p } else { p - 1 };
        let bq = if q < pos { q } else { q - 1 };
        if p != pos && q != pos {
            assert(after[p] == before[bp] && after[q] == before[bq]);
        } else if p == pos {
            assert(after[q] == before[bq]);
            assert(goes_before(keys, descending, x as int, before[bq] as int));
        } else {
            assert(after[p] == before[bp]);
        }
    }
}

/// What the stable order is: it lists each of the first `n` positions once;
/// positions whose keys tie stay in input order; and, where the keys are of
/// one kind, no key stands behind one that it has to precede.
pub proof fn stable_order_laws(keys: Seq<SortKey>, descending: bool, n: nat)
    requires
        n <= keys.len() <= usize::MAX,
    ensures
        is_arrangement(stable_order(keys, descending, n), n as int),
        is_stable(stable_order(keys, descending, n), keys, descending),
        same_kind(keys) ==> is_sorted(stable_order(keys, descending, n), keys, descending),
    decreases n,
{
    if n > 0 {
        let before = stable_order(keys, descending, (n - 1) as nat);
        let x = (n - 1) as usize;
        stable_order_laws(keys, descending, (n - 1) as nat);
        place_of_is_right(before, keys, descending, x);
        placing_keeps_laws(before, keys, descending, x, place_of(before, keys, descending, x));
    }
}

/// The order in which to read `keys` so that they ascend, or descend, ties
/// in input order: a stable sort by position.
pub fn sort_order(keys: &Vec<SortKey>, descending: bool) -> (out: Vec<usize>)
    ensures
        out@ == stable_order(keys@, descending, keys@.len()),
        is_arrangement(out@, keys@.len() as int),
        is_stable(out@, keys@, descending),
        same_kind(keys@) ==> is_sorted(out@, keys@, descending),
{
    let n = keys.len();
    let mut out: Vec<usize> = Vec::new();
    let mut i: usize = 0;
    while i < n
        invariant
            n == keys@.len(),
            i <= n,
            out@ == stable_order(keys@, descending, i as nat),
        decreases n - i,
    {
        proof {
            stable_order_laws(keys@, descending, i as nat);
        }
        let mut pos: usize = out.len();
        while pos > 0 && must_precede(keys, descending, i, out[pos - 1])
            invariant
                n == keys@.len(),
                i < n,
                pos <= out@.len(),
                is_arrangement(out@, i as int),
                forall|k: int|
                    pos <= k < out@.len() ==> goes_before(
                        keys@,
                        descending,
                        i as int,
                        out@[k] as int,
                    ),
            decreases pos,
        {
            pos -= 1;
        }
        proof {
            place_is_insert(out@, keys@, descending, i, pos as int);
        }
        out.insert(pos, i);
        i += 1;
    }
    proof {
        stable_order_laws(keys@, descending, n as nat);
    }
    out
}

/// Reads the positions `at` in `order`.
pub fn arrange(at: &Vec<usize>, order: &Vec<usize>) -> (out: Vec<usize>)
    requires
        forall|k: int| 0 <= k < order@.len() ==> (#[trigger] order@[k]) < at@.len(),
    ensures
        out@ == arranged(at@, order@),
{
    let mut out: Vec<usize> = Vec::new();
    let mut k: usize = 0;
    while k < order.len()
        invariant
            k <= order@.len(),
            forall|j: int| 0 <= j < order@.len() ==> (#[trigger] order@[j]) < at@.len(),
            out@.len() == k,
            forall|j: int| 0 <= j < k ==> out@[j] == at@[order@[j] as int],
        decreases order@.len() - k,
    {
        out.push(at[order[k]]);
        k += 1;
    }
    assert(out@ =~= arranged(at@, order@));
    out
}

} // verus!
