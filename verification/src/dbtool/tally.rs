//! How often values occur, and how they tie.

use vstd::prelude::*;

verus! {

/// How often a value occurs.
pub open spec fn count_in(values: Seq<i64>, value: i64) -> nat
    decreases values.len(),
{
    if values.len() == 0 {
        0
    } else {
        count_in(values.drop_last(), value) + (if values.last() == value {
            1nat
        } else {
            0
        })
    }
}

/// The value at `i` has not occurred before.
pub open spec fn is_first(values: Seq<i64>, i: int) -> bool {
    forall|j: int| 0 <= j < i ==> #[trigger] values[j] != values[i]
}

/// How many different values stand before `n`.
pub open spec fn distinct_before(values: Seq<i64>, n: int) -> nat
    decreases n,
{
    if n <= 0 {
        0
    } else {
        distinct_before(values, n - 1) + (if is_first(values, n - 1) {
            1nat
        } else {
            0
        })
    }
}

/// How many of the different values before `n` occur more than once.
pub open spec fn groups_before(values: Seq<i64>, n: int) -> nat
    decreases n,
{
    if n <= 0 {
        0
    } else {
        groups_before(values, n - 1) + (if is_first(values, n - 1) && count_in(
            values,
            values[n - 1],
        ) > 1 {
            1nat
        } else {
            0
        })
    }
}

/// How many places before `n` hold a value that occurs more than once.
pub open spec fn tied_before(values: Seq<i64>, n: int) -> nat
    decreases n,
{
    if n <= 0 {
        0
    } else {
        tied_before(values, n - 1) + (if count_in(values, values[n - 1]) > 1 {
            1nat
        } else {
            0
        })
    }
}

pub open spec fn larger(a: nat, b: nat) -> nat {
    if a >= b {
        a
    } else {
        b
    }
}

/// How often the most frequent value before `n` occurs.
pub open spec fn largest_before(values: Seq<i64>, n: int) -> nat
    decreases n,
{
    if n <= 0 {
        0
    } else {
        larger(largest_before(values, n - 1), count_in(values, values[n - 1]))
    }
}

/// A count that is one of a tie.
pub open spec fn tie_size(count: nat) -> nat {
    if count > 1 {
        count
    } else {
        0
    }
}

/// How values occur and tie: how many different ones there are, how many of these occur more
/// than once, how many places those take, and how often the most frequent value occurs.
#[derive(Debug, Clone, Copy, PartialEq, Eq, Structural)]
pub struct Tally {
    pub distinct: usize,
    pub tie_groups: usize,
    pub tied_items: usize,
    pub largest: usize,
}

impl Tally {
    pub open spec fn counts(self, values: Seq<i64>) -> bool {
        let n = values.len() as int;
        &&& self.distinct == distinct_before(values, n)
        &&& self.tie_groups == groups_before(values, n)
        &&& self.tied_items == tied_before(values, n)
        &&& self.largest == largest_before(values, n)
    }

    /// The size of the largest tie, which is none when no value occurs twice.
    pub fn largest_tie(&self) -> (r: usize)
        ensures
            r == tie_size(self.largest as nat),
    {
        if self.largest > 1 {
            self.largest
        } else {
            0
        }
    }
}

proof fn lemma_count_bound(values: Seq<i64>, value: i64)
    ensures
        count_in(values, value) <= values.len(),
    decreases values.len(),
{
    if values.len() > 0 {
        lemma_count_bound(values.drop_last(), value);
    }
}

fn occurrences(values: &Vec<i64>, value: i64) -> (r: usize)
    ensures
        r == count_in(values@, value),
{
    let mut count: usize = 0;
    let mut i: usize = 0;
    assert(values@.take(0) =~= Seq::empty());
    while i < values.len()
        invariant
            0 <= i <= values@.len(),
            count <= i,
            count == count_in(values@.take(i as int), value),
        decreases values@.len() - i,
    {
        proof {
            assert(values@.take(i + 1).drop_last() =~= values@.take(i as int));
            assert(values@.take(i + 1).last() == values@[i as int]);
        }
        if values[i] == value {
            count = count + 1;
        }
        i = i + 1;
    }
    assert(values@.take(values@.len() as int) =~= values@);
    count
}

fn seen_before(values: &Vec<i64>, i: usize) -> (r: bool)
    requires
        i < values@.len(),
    ensures
        r == !is_first(values@, i as int),
{
    let mut j: usize = 0;
    while j < i
        invariant
            0 <= j <= i < values@.len(),
            forall|k: int| 0 <= k < j ==> #[trigger] values@[k] != values@[i as int],
        decreases i - j,
    {
        if values[j] == values[i] {
            return true;
        }
        j = j + 1;
    }
    false
}

pub fn tally(values: &Vec<i64>) -> (r: Tally)
    ensures
        r.counts(values@),
{
    let mut distinct: usize = 0;
    let mut tie_groups: usize = 0;
    let mut tied_items: usize = 0;
    let mut largest: usize = 0;
    let mut i: usize = 0;
    while i < values.len()
        invariant
            0 <= i <= values@.len(),
            distinct <= i,
            tie_groups <= i,
            tied_items <= i,
            distinct == distinct_before(values@, i as int),
            tie_groups == groups_before(values@, i as int),
            tied_items == tied_before(values@, i as int),
            largest == largest_before(values@, i as int),
        decreases values@.len() - i,
    {
        let count: usize = occurrences(values, values[i]);
        let first = !seen_before(values, i);
        if first {
            distinct = distinct + 1;
            if count > 1 {
                tie_groups = tie_groups + 1;
            }
        }
        if count > 1 {
            tied_items = tied_items + 1;
        }
        if count > largest {
            largest = count;
        }
        i = i + 1;
    }
    Tally { distinct, tie_groups, tied_items, largest }
}

/// No value occurs more often than there are places, and there are no more different values
/// than places.
pub proof fn lemma_tally_bounded(values: Seq<i64>, n: int)
    requires
        0 <= n <= values.len(),
    ensures
        distinct_before(values, n) <= n,
        tied_before(values, n) <= n,
        groups_before(values, n) <= distinct_before(values, n),
        largest_before(values, n) <= values.len(),
    decreases n,
{
    if n > 0 {
        lemma_tally_bounded(values, n - 1);
        lemma_count_bound(values, values[n - 1]);
    }
}

} // verus!
