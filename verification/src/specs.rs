//! Specification sets: the key/value attributes of an advert, read as a set
//! of pairs in which order and repetition do not count.

use vstd::prelude::*;
use crate::model::Specification;

verus! {

/// A specification as a pair of texts.
pub open spec fn spec_pair(s: Specification) -> (Seq<char>, Seq<char>) {
    (s.key@, s.value@)
}

/// The set of key/value pairs that a list of specifications holds.
pub open spec fn spec_set(specs: Seq<Specification>) -> Set<(Seq<char>, Seq<char>)>
    decreases specs.len(),
{
    if specs.len() == 0 {
        Set::empty()
    } else {
        spec_set(specs.drop_last()).insert(spec_pair(specs.last()))
    }
}

/// A specification set is finite and holds exactly the pairs of its list.
pub proof fn spec_set_members(specs: Seq<Specification>)
    ensures
        spec_set(specs).finite(),
        forall|p: (Seq<char>, Seq<char>)|
            spec_set(specs).contains(p) <==> exists|i: int|
                0 <= i < specs.len() && #[trigger] spec_pair(specs[i]) == p,
    decreases specs.len(),
{
    if specs.len() > 0 {
        let init = specs.drop_last();
        spec_set_members(init);
        assert forall|p: (Seq<char>, Seq<char>)|
            spec_set(specs).contains(p) <==> exists|i: int|
                0 <= i < specs.len() && #[trigger] spec_pair(specs[i]) == p by {
            if spec_set(specs).contains(p) {
                if p == spec_pair(specs.last()) {
                    assert(spec_pair(specs[specs.len() - 1]) == p);
                } else {
                    let i = choose|i: int| 0 <= i < init.len() && #[trigger] spec_pair(init[i]) == p;
                    assert(spec_pair(specs[i]) == p);
                }
            }
            if exists|i: int| 0 <= i < specs.len() && #[trigger] spec_pair(specs[i]) == p {
                let i = choose|i: int| 0 <= i < specs.len() && #[trigger] spec_pair(specs[i]) == p;
                if i < specs.len() - 1 {
                    assert(spec_pair(init[i]) == p);
                }
            }
        }
    }
}

/// One step of [`spec_set`] along a list.
proof fn spec_set_step(specs: Seq<Specification>, i: int)
    requires
        0 <= i < specs.len(),
    ensures
        spec_set(specs.take(i + 1)) == spec_set(specs.take(i)).insert(spec_pair(specs[i])),
{
    assert(specs.take(i + 1).drop_last() =~= specs.take(i));
    assert(specs.take(i + 1).last() == specs[i]);
}

/// Tests whether the pair (`key`, `value`) is among the first `upto`
/// specifications.
pub fn holds_pair(
    specs: &Vec<Specification>,
    upto: usize,
    key: &String,
    value: &String,
) -> (r: bool)
    requires
        upto <= specs@.len(),
    ensures
        r == spec_set(specs@.take(upto as int)).contains((key@, value@)),
{
    let mut i: usize = 0;
    while i < upto
        invariant
            i <= upto <= specs@.len(),
            !spec_set(specs@.take(i as int)).contains((key@, value@)),
        decreases upto - i,
    {
        proof {
            spec_set_step(specs@, i as int);
        }
        if specs[i].key == *key && specs[i].value == *value {
            proof {
                spec_set_members(specs@.take(upto as int));
                assert(spec_pair(specs@.take(upto as int)[i as int]) == (key@, value@));
            }
            return true;
        }
        i += 1;
    }
    false
}

/// Tests whether every pair of `a` is a pair of `b`.
pub fn covers(a: &Vec<Specification>, b: &Vec<Specification>) -> (r: bool)
    ensures
        r == spec_set(a@).subset_of(spec_set(b@)),
{
    let mut i: usize = 0;
    while i < a.len()
        invariant
            i <= a@.len(),
            spec_set(a@.take(i as int)).subset_of(spec_set(b@)),
        decreases a@.len() - i,
    {
        proof {
            spec_set_step(a@, i as int);
            assert(b@.take(b@.len() as int) =~= b@);
        }
        if !holds_pair(b, b.len(), &a[i].key, &a[i].value) {
            proof {
                spec_set_members(a@);
                assert(spec_pair(a@[i as int]) == (a@[i as int].key@, a@[i as int].value@));
            }
            return false;
        }
        i += 1;
    }
    proof {
        assert(a@.take(a@.len() as int) =~= a@);
    }
    true
}

/// Tests whether two lists hold the same set of pairs.
pub fn same_set(a: &Vec<Specification>, b: &Vec<Specification>) -> (r: bool)
    ensures
        r == (spec_set(a@) == spec_set(b@)),
{
    let r = covers(a, b) && covers(b, a);
    proof {
        if r {
            assert(spec_set(a@) =~= spec_set(b@));
        }
    }
    r
}

/// The number of distinct pairs that `a` and `b` share.
pub fn shared_pairs(a: &Vec<Specification>, b: &Vec<Specification>) -> (n: usize)
    ensures
        n == spec_set(a@).intersect(spec_set(b@)).len(),
{
    let mut n: usize = 0;
    let mut i: usize = 0;
    proof {
        assert(spec_set(a@.take(0)).intersect(spec_set(b@)) =~= Set::empty());
    }
    while i < a.len()
        invariant
            i <= a@.len(),
            n <= i,
            n == spec_set(a@.take(i as int)).intersect(spec_set(b@)).len(),
        decreases a@.len() - i,
    {
        let ghost seen = spec_set(a@.take(i as int));
        let ghost other = spec_set(b@);
        let ghost p = spec_pair(a@[i as int]);
        proof {
            spec_set_step(a@, i as int);
            spec_set_members(a@.take(i as int));
            assert(b@.take(b@.len() as int) =~= b@);
            assert(seen.intersect(other).finite());
        }
        let repeated = holds_pair(a, i, &a[i].key, &a[i].value);
        let shared = holds_pair(b, b.len(), &a[i].key, &a[i].value);
        if !repeated && shared {
            proof {
                assert(seen.insert(p).intersect(other) =~= seen.intersect(other).insert(p));
            }
            n += 1;
        } else {
            proof {
                if repeated {
                    assert(seen.insert(p) =~= seen);
                } else {
                    assert(seen.insert(p).intersect(other) =~= seen.intersect(other));
                }
            }
        }
        i += 1;
    }
    proof {
        assert(a@.take(a@.len() as int) =~= a@);
    }
    n
}

} // verus!
