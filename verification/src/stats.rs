//! Counts of what the marketplace holds.

use vstd::prelude::*;

verus! {

/// How many users and adverts there are, and how many of them are of today.
#[derive(Clone, Copy, Debug, PartialEq, Eq, Structural)]
pub struct Statistics {
    pub user_count: u64,
    pub advert_count: u64,
    pub today_user_count: u64,
    pub today_advert_count: u64,
}

/// The number of times that lie after `since`.
pub open spec fn count_after(times: Seq<i64>, since: i64) -> nat
    decreases times.len(),
{
    if times.len() == 0 {
        0
    } else {
        count_after(times.drop_last(), since) + if times.last() > since {
            1nat
        } else {
            0nat
        }
    }
}

/// Counts the times that lie after `since`.
pub fn count_since(times: &Vec<i64>, since: i64) -> (n: u64)
    ensures
        n == count_after(times@, since),
{
    let mut n: u64 = 0;
    let mut i: usize = 0;
    while i < times.len()
        invariant
            i <= times@.len(),
            n <= i,
            n == count_after(times@.take(i as int), since),
        decreases times@.len() - i,
    {
        assert(times@.take(i + 1).drop_last() =~= times@.take(i as int));
        if times[i] > since {
            n += 1;
        }
        i += 1;
    }
    assert(times@.take(times@.len() as int) =~= times@);
    n
}

/// The root of the queries that concern no one kind of record.
#[derive(Debug)]
pub struct QueryRoot;

impl Default for QueryRoot {
    fn default() -> (q: QueryRoot) {
        QueryRoot
    }
}

impl QueryRoot {
    /// The statistics, from the creation times of all users and of all
    /// adverts and the time at which today began.
    pub fn stats(
        &self,
        users_created: &Vec<i64>,
        adverts_created: &Vec<i64>,
        today: i64,
    ) -> (s: Statistics)
        ensures
            s.user_count == users_created@.len(),
            s.advert_count == adverts_created@.len(),
            s.today_user_count == count_after(users_created@, today),
            s.today_advert_count == count_after(adverts_created@, today),
    {
        Statistics {
            user_count: users_created.len() as u64,
            advert_count: adverts_created.len() as u64,
            today_user_count: count_since(users_created, today),
            today_advert_count: count_since(adverts_created, today),
        }
    }
}

} // verus!
