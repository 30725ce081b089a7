//! Stable sorting by a stated order.

use vstd::prelude::*;

verus! {

/// An order on `T`: which of two items may stand before the other. On the items
/// that `orders` admits it is total and transitive; ties are allowed.
pub trait Precedence<T> {
    /// The items that this order can compare.
    spec fn orders(&self, item: T) -> bool;

    /// `a` may stand before `b`.
    spec fn precedes(&self, a: T, b: T) -> bool;

    proof fn lemma_total(&self, a: T, b: T)
        requires
            self.orders(a),
            self.orders(b),
        ensures
            self.precedes(a, b) || self.precedes(b, a),
    ;

    proof fn lemma_transitive(&self, a: T, b: T, c: T)
        requires
            self.orders(a),
            self.orders(b),
            self.orders(c),
            self.precedes(a, b),
            self.precedes(b, c),
        ensures
            self.precedes(a, c),
    ;

    fn may_precede(&self, a: &T, b: &T) -> (r: bool)
        requires
            self.orders(*a),
            self.orders(*b),
        ensures
            r == self.precedes(*a, *b),
    ;
}

/// Every item may stand before every later one.
pub open spec fn in_order<T, P: Precedence<T>>(s: Seq<T>, order: &P) -> bool {
    forall|i: int, j: int| 0 <= i < j < s.len() ==> order.precedes(#[trigger] s[i], #[trigger] s[j])
}

/// How many of the first items of `s` stay before `item`: those up to the last one
/// that may precede it.
pub open spec fn slot<T, P: Precedence<T>>(s: Seq<T>, item: T, order: &P) -> int
    decreases s.len(),
{
    if s.len() == 0 || order.precedes(s.last(), item) {
        s.len() as int
    } else {
        slot(s.drop_last(), item, order)
    }
}

/// The stable sort: each item of the input, in turn, goes behind the last of its
/// predecessors that may precede it.
pub open spec fn stable_sorted<T, P: Precedence<T>>(s: Seq<T>, order: &P) -> Seq<T>
    decreases s.len(),
{
    if s.len() == 0 {
        s
    } else {
        let front = stable_sorted(s.drop_last(), order);
        front.insert(slot(front, s.last(), order), s.last())
    }
}

proof fn lemma_slot_range<T, P: Precedence<T>>(s: Seq<T>, item: T, order: &P)
    ensures
        0 <= slot(s, item, order) <= s.len(),
        slot(s, item, order) > 0 ==> order.precedes(s[slot(s, item, order) - 1], item),
        forall|i: int| slot(s, item, order) <= i < s.len() ==> !order.precedes(#[trigger] s[i], item),
    decreases s.len(),
{
    if s.len() > 0 && !order.precedes(s.last(), item) {
        lemma_slot_range(s.drop_last(), item, order);
        let p = slot(s, item, order);
        assert forall|i: int| p <= i < s.len() implies !order.precedes(#[trigger] s[i], item) by {
            if i < s.len() - 1 {
                assert(s.drop_last()[i] == s[i]);
            }
        }
        if p > 0 {
            assert(s.drop_last()[p - 1] == s[p - 1]);
        }
    }
}

/// The stable sort is a rearrangement of its input.
pub proof fn lemma_sorted_rearranges<T, P: Precedence<T>>(s: Seq<T>, order: &P)
    ensures
        stable_sorted(s, order).len() == s.len(),
        stable_sorted(s, order).to_multiset() == s.to_multiset(),
    decreases s.len(),
{
    broadcast use vstd::seq_lib::group_to_multiset_ensures;

    if s.len() > 0 {
        let front = stable_sorted(s.drop_last(), order);
        lemma_sorted_rearranges(s.drop_last(), order);
        lemma_slot_range(front, s.last(), order);
        let p = slot(front, s.last(), order);
        assert(front.insert(p, s.last()).to_multiset() == front.to_multiset().insert(s.last()));
        assert(s.drop_last().push(s.last()) =~= s);
        assert(s.to_multiset() == s.drop_last().to_multiset().insert(s.last()));
    }
}

/// Membership is the same before and after.
pub proof fn lemma_sorted_members<T, P: Precedence<T>>(s: Seq<T>, order: &P)
    ensures
        forall|x: T| stable_sorted(s, order).contains(x) == #[trigger] s.contains(x),
{
    broadcast use vstd::seq_lib::group_to_multiset_ensures;

    lemma_sorted_rearranges(s, order);
    assert forall|x: T| stable_sorted(s, order).contains(x) == #[trigger] s.contains(x) by {
        assert(s.contains(x) == (s.to_multiset().count(x) > 0));
        assert(stable_sorted(s, order).contains(x) == (stable_sorted(s, order).to_multiset().count(x)
            > 0));
    }
}

/// The stable sort is in order.
pub proof fn lemma_sorted_in_order<T, P: Precedence<T>>(s: Seq<T>, order: &P)
    requires
        forall|i: int| 0 <= i < s.len() ==> order.orders(#[trigger] s[i]),
    ensures
        in_order(stable_sorted(s, order), order),
        forall|i: int|
            0 <= i < stable_sorted(s, order).len() ==> order.orders(
                #[trigger] stable_sorted(s, order)[i],
            ),
    decreases s.len(),
{
    if s.len() > 0 {
        let item = s.last();
        let front = stable_sorted(s.drop_last(), order);
        assert forall|i: int| 0 <= i < s.drop_last().len() implies order.orders(
            #[trigger] s.drop_last()[i],
        ) by {
            assert(order.orders(s[i]));
        }
        assert(order.orders(s[s.len() - 1]));
        lemma_sorted_in_order(s.drop_last(), order);
        lemma_slot_range(front, item, order);
        let p = slot(front, item, order);
        let out = front.insert(p, item);
        assert forall|i: int| 0 <= i < out.len() implies order.orders(#[trigger] out[i]) by {
            if i < p {
                assert(out[i] == front[i]);
            } else if i > p {
                assert(out[i] == front[i - 1]);
            }
        }
        assert forall|i: int, j: int| 0 <= i < j < out.len() implies order.precedes(
            #[trigger] out[i],
            #[trigger] out[j],
        ) by {
            if i < p && j == p {
                if i < p - 1 {
                    order.lemma_transitive(front[i], front[p - 1], item);
                }
            } else if i == p {
                assert(out[j] == front[j - 1]);
                order.lemma_total(item, front[j - 1]);
            } else if i < p && j < p {
                assert(out[i] == front[i] && out[j] == front[j]);
            } else if i < p {
                assert(out[i] == front[i] && out[j] == front[j - 1]);
            } else {
                assert(out[i] == front[i - 1] && out[j] == front[j - 1]);
            }
        }
    }
}

/// Items that tie keep the order in which they came: of two items of the input that
/// may each precede the other, the earlier one comes out first. Stated for the last
/// item, which goes behind every item that may precede it.
pub proof fn lemma_last_goes_behind_ties<T, P: Precedence<T>>(s: Seq<T>, order: &P)
    requires
        s.len() > 0,
        forall|i: int| 0 <= i < s.len() ==> order.orders(#[trigger] s[i]),
    ensures
        ({
            let front = stable_sorted(s.drop_last(), order);
            let p = slot(front, s.last(), order);
            &&& 0 <= p <= front.len()
            &&& stable_sorted(s, order) == front.insert(p, s.last())
            &&& forall|i: int| 0 <= i < front.len() ==> (i < p) == order.precedes(
                #[trigger] front[i],
                s.last(),
            )
        }),
{
    let item = s.last();
    let front = stable_sorted(s.drop_last(), order);
    assert forall|i: int| 0 <= i < s.drop_last().len() implies order.orders(
        #[trigger] s.drop_last()[i],
    ) by {
        assert(order.orders(s[i]));
    }
    assert(order.orders(s[s.len() - 1]));
    lemma_sorted_in_order(s.drop_last(), order);
    lemma_slot_range(front, item, order);
    let p = slot(front, item, order);
    assert forall|i: int| 0 <= i < front.len() implies (i < p) == order.precedes(
        #[trigger] front[i],
        item,
    ) by {
        if i < p - 1 {
            order.lemma_transitive(front[i], front[p - 1], item);
        }
    }
}

/// Sorts `items` stably.
pub fn sort_stable<T, P: Precedence<T>>(items: Vec<T>, order: &P) -> (r: Vec<T>)
    requires
        forall|i: int| 0 <= i < items@.len() ==> order.orders(#[trigger] items@[i]),
    ensures
        r@ == stable_sorted(items@, order),
        r@.len() == items@.len(),
        in_order(r@, order),
        r@.to_multiset() == items@.to_multiset(),
{
    let ghost input = items@;
    let mut rest = items;
    let mut pending: Vec<T> = Vec::new();
    // Reverse once, so that the items come off the end in input order.
    while rest.len() > 0
        invariant
            rest@.len() + pending@.len() == input.len(),
            rest@ == input.take(rest@.len() as int),
            forall|i: int|
                0 <= i < pending@.len() ==> #[trigger] pending@[i] == input[input.len() - 1 - i],
        decreases rest@.len(),
    {
        let ghost before = rest@;
        match rest.pop() {
            Some(item) => {
                assert(item == input[before.len() - 1]);
                assert(rest@ =~= input.take(rest@.len() as int));
                pending.push(item);
            },
            None => {},
        }
    }
    let mut out: Vec<T> = Vec::new();
    assert(input.take(0) =~= Seq::empty());
    while pending.len() > 0
        invariant
            pending@.len() + out@.len() == input.len(),
            forall|i: int| 0 <= i < input.len() ==> order.orders(#[trigger] input[i]),
            forall|i: int|
                0 <= i < pending@.len() ==> #[trigger] pending@[i] == input[input.len() - 1 - i],
            out@ == stable_sorted(input.take(out@.len() as int), order),
        decreases pending@.len(),
    {
        let ghost done = out@.len() as int;
        let ghost last = pending@[pending@.len() - 1];
        assert(last == input[done]);
        match pending.pop() {
            Some(item) => {
                let ghost next = input.take(done + 1);
                proof {
                    assert(next.drop_last() =~= input.take(done));
                    assert(next.last() == item);
                    assert forall|i: int| 0 <= i < input.take(done).len() implies order.orders(
                        #[trigger] input.take(done)[i],
                    ) by {
                        assert(order.orders(input[i]));
                    }
                    lemma_sorted_in_order(input.take(done), order);
                    assert(order.orders(input[done]));
                }
                let mut p: usize = out.len();
                assert(out@.take(p as int) =~= out@);
                while p > 0 && !order.may_precede(&out[p - 1], &item)
                    invariant
                        0 <= p <= out@.len(),
                        order.orders(item),
                        forall|i: int| 0 <= i < out@.len() ==> order.orders(#[trigger] out@[i]),
                        slot(out@, item, order) == slot(out@.take(p as int), item, order),
                    decreases p,
                {
                    assert(out@.take(p as int).drop_last() =~= out@.take(p - 1));
                    assert(out@.take(p as int).last() == out@[p - 1]);
                    p = p - 1;
                }
                proof {
                    if p > 0 {
                        assert(out@.take(p as int).last() == out@[p - 1]);
                    }
                    assert(slot(out@, item, order) == p);
                }
                out.insert(p, item);
            },
            None => {},
        }
    }
    proof {
        assert(input.take(input.len() as int) =~= input);
        lemma_sorted_in_order(input, order);
        lemma_sorted_rearranges(input, order);
    }
    out
}

// ---------------------------------------------------------------------------
// Picking items by position
// ---------------------------------------------------------------------------

/// The items at the given positions.
pub open spec fn gathered<T>(items: Seq<T>, positions: Seq<usize>) -> Seq<T> {
    positions.map_values(|p: usize| items[p as int])
}

/// Moves the items at the given positions out, in that order.
pub fn gather<T>(items: Vec<T>, positions: &Vec<usize>) -> (r: Vec<T>)
    requires
        positions@.no_duplicates(),
        forall|i: int| 0 <= i < positions@.len() ==> (#[trigger] positions@[i]) < items@.len(),
    ensures
        r@ == gathered(items@, positions@),
{
    let ghost input = items@;
    let mut slots: Vec<Option<T>> = Vec::new();
    for item in it: items
        invariant
            it.seq() == input,
            slots@.len() == it.index(),
            forall|j: int| 0 <= j < slots@.len() ==> #[trigger] slots@[j] == Some(input[j]),
    {
        slots.push(Some(item));
    }
    let mut out: Vec<T> = Vec::new();
    let mut i: usize = 0;
    while i < positions.len()
        invariant
            0 <= i <= positions@.len(),
            positions@.no_duplicates(),
            slots@.len() == input.len(),
            forall|k: int| 0 <= k < positions@.len() ==> (#[trigger] positions@[k]) < input.len(),
            forall|k: int|
                i <= k < positions@.len() ==> slots@[(#[trigger] positions@[k]) as int] == Some(
                    input[positions@[k] as int],
                ),
            out@ == gathered(input, positions@).take(i as int),
        decreases positions@.len() - i,
    {
        let at: usize = positions[i];
        assert(slots@[at as int] == Some(input[at as int]));
        let mut taken: Option<T> = None;
        core::mem::swap(&mut taken, &mut slots[at]);
        match taken {
            Some(item) => {
                proof {
                    assert(gathered(input, positions@).take(i + 1) =~= gathered(
                        input,
                        positions@,
                    ).take(i as int).push(item));
                }
                out.push(item);
            },
            None => {},
        }
        i = i + 1;
    }
    proof {
        assert(gathered(input, positions@).take(i as int) =~= gathered(input, positions@));
    }
    out
}

/// The last position of `id`.
pub open spec fn last_position(ids: Seq<u32>, id: u32) -> Option<int>
    decreases ids.len(),
{
    if ids.len() == 0 {
        None
    } else if ids.last() == id {
        Some(ids.len() - 1)
    } else {
        last_position(ids.drop_last(), id)
    }
}

pub proof fn lemma_last_position(ids: Seq<u32>, id: u32)
    ensures
        last_position(ids, id) is Some <==> ids.contains(id),
        last_position(ids, id) matches Some(p) ==> 0 <= p < ids.len() && ids[p] == id && forall|j: int|
            p < j < ids.len() ==> #[trigger] ids[j] != id,
    decreases ids.len(),
{
    if ids.len() > 0 {
        lemma_last_position(ids.drop_last(), id);
        if ids.last() == id {
            assert(ids[ids.len() - 1] == id);
        } else {
            if ids.contains(id) {
                let i = choose|i: int| 0 <= i < ids.len() && ids[i] == id;
                assert(ids.drop_last()[i] == id);
            }
            if ids.drop_last().contains(id) {
                let i = choose|i: int| 0 <= i < ids.drop_last().len() && ids.drop_last()[i] == id;
                assert(ids[i] == id);
                let p = last_position(ids, id)->0;
                assert forall|j: int| p < j < ids.len() implies #[trigger] ids[j] != id by {
                    if j < ids.len() - 1 {
                        assert(ids.drop_last()[j] == ids[j]);
                    }
                }
            }
        }
    }
}

pub fn find_last(ids: &Vec<u32>, id: u32) -> (r: Option<usize>)
    ensures
        match r {
            Some(p) => last_position(ids@, id) == Some(p as int) && p < ids@.len() && ids@[p as int]
                == id,
            None => last_position(ids@, id) is None,
        },
{
    let mut i: usize = ids.len();
    assert(ids@.take(i as int) =~= ids@);
    while i > 0
        invariant
            0 <= i <= ids@.len(),
            last_position(ids@, id) == last_position(ids@.take(i as int), id),
        decreases i,
    {
        proof {
            assert(ids@.take(i as int).last() == ids@[i - 1]);
            assert(ids@.take(i as int).drop_last() =~= ids@.take(i - 1));
        }
        if ids[i - 1] == id {
            return Some(i - 1);
        }
        i = i - 1;
    }
    None
}

/// Those of the wanted identifiers that are available, each once, in the order in
/// which they are first wanted.
pub open spec fn picks(wanted: Seq<u32>, available: Seq<u32>) -> Seq<u32>
    decreases wanted.len(),
{
    if wanted.len() == 0 {
        Seq::empty()
    } else {
        let front = picks(wanted.drop_last(), available);
        let id = wanted.last();
        if available.contains(id) && !front.contains(id) {
            front.push(id)
        } else {
            front
        }
    }
}

/// The first `limit` items.
pub open spec fn at_most<T>(s: Seq<T>, limit: nat) -> Seq<T> {
    if s.len() <= limit {
        s
    } else {
        s.take(limit as int)
    }
}

pub proof fn lemma_picks_members(wanted: Seq<u32>, available: Seq<u32>)
    ensures
        picks(wanted, available).no_duplicates(),
        forall|id: u32| #[trigger]
            picks(wanted, available).contains(id) <==> wanted.contains(id) && available.contains(id),
    decreases wanted.len(),
{
    if wanted.len() > 0 {
        let front = picks(wanted.drop_last(), available);
        let last = wanted.last();
        lemma_picks_members(wanted.drop_last(), available);
        let all = picks(wanted, available);
        assert forall|id: u32| #[trigger] all.contains(id) <==> wanted.contains(id)
            && available.contains(id) by {
            assert(wanted.contains(id) <==> wanted.drop_last().contains(id) || id == last) by {
                if wanted.contains(id) && id != last {
                    let i = choose|i: int| 0 <= i < wanted.len() && wanted[i] == id;
                    assert(wanted.drop_last()[i] == id);
                }
                if wanted.drop_last().contains(id) {
                    let i = choose|i: int|
                        0 <= i < wanted.drop_last().len() && wanted.drop_last()[i] == id;
                    assert(wanted[i] == id);
                }
                if id == last {
                    assert(wanted[wanted.len() - 1] == id);
                }
            }
            if available.contains(last) && !front.contains(last) {
                assert(all == front.push(last));
                assert(all.contains(id) <==> front.contains(id) || id == last) by {
                    if front.contains(id) {
                        let i = choose|i: int| 0 <= i < front.len() && front[i] == id;
                        assert(all[i] == id);
                    }
                    if id == last {
                        assert(all[front.len() as int] == id);
                    }
                    if all.contains(id) && id != last {
                        let i = choose|i: int| 0 <= i < all.len() && all[i] == id;
                        assert(front[i] == id);
                    }
                }
            } else {
                assert(all == front);
            }
        }
    }
}

proof fn lemma_picks_prefix(wanted: Seq<u32>, available: Seq<u32>, k: int)
    requires
        0 <= k <= wanted.len(),
    ensures
        picks(wanted.take(k), available).len() <= picks(wanted, available).len(),
        picks(wanted, available).take(picks(wanted.take(k), available).len() as int) == picks(
            wanted.take(k),
            available,
        ),
    decreases wanted.len(),
{
    let part = picks(wanted.take(k), available);
    let all = picks(wanted, available);
    if k == wanted.len() {
        assert(wanted.take(k) =~= wanted);
        assert(all.take(part.len() as int) =~= part);
    } else {
        assert(wanted.drop_last().take(k) =~= wanted.take(k));
        lemma_picks_prefix(wanted.drop_last(), available, k);
        assert(all.take(part.len() as int) =~= part);
    }
}

/// The last positions of the first `limit` picks.
pub fn pick_positions(wanted: &Vec<u32>, available: &Vec<u32>, limit: usize) -> (r: Vec<usize>)
    ensures
        r@.no_duplicates(),
        forall|i: int| 0 <= i < r@.len() ==> (#[trigger] r@[i]) < available@.len(),
        gathered(available@, r@) == at_most(picks(wanted@, available@), limit as nat),
        forall|i: int|
            0 <= i < r@.len() ==> last_position(available@, available@[(#[trigger] r@[i]) as int])
                == Some(r@[i] as int),
{
    let mut out: Vec<usize> = Vec::new();
    let mut chosen: Vec<u32> = Vec::new();
    let mut k: usize = 0;
    assert(wanted@.take(0) =~= Seq::empty());
    assert(gathered(available@, out@) =~= Seq::empty());
    while k < wanted.len() && out.len() < limit
        invariant
            0 <= k <= wanted@.len(),
            out@.len() <= limit,
            out@.len() == chosen@.len(),
            chosen@ == picks(wanted@.take(k as int), available@),
            chosen@ == gathered(available@, out@),
            forall|i: int| 0 <= i < out@.len() ==> (#[trigger] out@[i]) < available@.len(),
            forall|i: int|
                0 <= i < out@.len() ==> last_position(
                    available@,
                    available@[(#[trigger] out@[i]) as int],
                ) == Some(out@[i] as int),
        decreases wanted@.len() - k,
    {
        let id: u32 = wanted[k];
        proof {
            let next = wanted@.take(k + 1);
            assert(next.drop_last() =~= wanted@.take(k as int));
            assert(next.last() == id);
            lemma_last_position(available@, id);
            lemma_last_position(chosen@, id);
        }
        if find_last(&chosen, id).is_none() {
            match find_last(available, id) {
                Some(at) => {
                    let ghost before = out@;
                    out.push(at);
                    chosen.push(id);
                    proof {
                        assert(gathered(available@, out@) =~= gathered(available@, before).push(id));
                    }
                },
                None => {},
            }
        }
        k = k + 1;
    }
    proof {
        let all = picks(wanted@, available@);
        lemma_picks_members(wanted@.take(k as int), available@);
        if k == wanted@.len() {
            assert(wanted@.take(k as int) =~= wanted@);
            assert(at_most(all, limit as nat) =~= gathered(available@, out@));
        } else {
            lemma_picks_prefix(wanted@, available@, k as int);
            assert(at_most(all, limit as nat) =~= gathered(available@, out@));
        }
        assert forall|i: int, j: int| 0 <= i < out@.len() && 0 <= j < out@.len() && i != j implies out@[i]
            != out@[j] by {
            assert(chosen@[i] == available@[out@[i] as int]);
            assert(chosen@[j] == available@[out@[j] as int]);
            assert(chosen@[i] != chosen@[j]);
        }
    }
    out
}

// ---------------------------------------------------------------------------
// Three-way comparison as an integer: negative, zero or positive
// ---------------------------------------------------------------------------

/// The first comparison that decides.
pub open spec fn chain(first: int, second: int) -> int {
    if first != 0 {
        first
    } else {
        second
    }
}

/// Texts in the order of their characters' code points, which is that of their
/// UTF-8 bytes.
pub open spec fn text_order(a: Seq<char>, b: Seq<char>) -> int
    decreases a.len(),
{
    if a.len() == 0 {
        -(b.len() as int)
    } else if b.len() == 0 {
        1
    } else if a[0] != b[0] {
        a[0] as int - b[0] as int
    } else {
        text_order(a.drop_first(), b.drop_first())
    }
}

pub proof fn lemma_text_order_antisymmetric(a: Seq<char>, b: Seq<char>)
    ensures
        text_order(a, b) == 0 <==> a == b,
        text_order(a, b) < 0 <==> text_order(b, a) > 0,
        text_order(a, b) > 0 <==> text_order(b, a) < 0,
    decreases a.len(),
{
    if a.len() == 0 {
        if b.len() == 0 {
            assert(a =~= b);
        }
    } else if b.len() == 0 {
    } else if a[0] != b[0] {
    } else {
        lemma_text_order_antisymmetric(a.drop_first(), b.drop_first());
        if a.drop_first() == b.drop_first() {
            assert(a =~= seq![a[0]] + a.drop_first());
            assert(b =~= seq![b[0]] + b.drop_first());
        }
    }
}

pub proof fn lemma_text_order_transitive(a: Seq<char>, b: Seq<char>, c: Seq<char>)
    requires
        text_order(a, b) <= 0,
        text_order(b, c) <= 0,
    ensures
        text_order(a, c) <= 0,
        text_order(a, c) == 0 ==> text_order(a, b) == 0 && text_order(b, c) == 0,
    decreases a.len(),
{
    if a.len() == 0 {
    } else if b.len() == 0 {
    } else if c.len() == 0 {
    } else if a[0] != b[0] || b[0] != c[0] {
    } else {
        lemma_text_order_transitive(a.drop_first(), b.drop_first(), c.drop_first());
    }
}

/// `a` against `b`: less than zero, zero, or more.
pub fn text_comparison(a: &str, b: &str) -> (r: i8)
    ensures
        r < 0 <==> text_order(a@, b@) < 0,
        r == 0 <==> text_order(a@, b@) == 0,
        r > 0 <==> text_order(a@, b@) > 0,
{
    let x = crate::text::to_chars(a);
    let y = crate::text::to_chars(b);
    let mut i: usize = 0;
    assert(x@.skip(0) =~= x@);
    assert(y@.skip(0) =~= y@);
    while i < x.len() && i < y.len()
        invariant
            0 <= i <= x@.len(),
            i <= y@.len(),
            x@ == a@,
            y@ == b@,
            text_order(a@, b@) == text_order(x@.skip(i as int), y@.skip(i as int)),
        decreases x@.len() - i,
    {
        proof {
            assert(x@.skip(i as int)[0] == x@[i as int]);
            assert(y@.skip(i as int)[0] == y@[i as int]);
            assert(x@.skip(i as int).drop_first() =~= x@.skip(i + 1));
            assert(y@.skip(i as int).drop_first() =~= y@.skip(i + 1));
        }
        if x[i] < y[i] {
            return -1;
        }
        if x[i] > y[i] {
            return 1;
        }
        i = i + 1;
    }
    if i < y.len() {
        -1
    } else if i < x.len() {
        1
    } else {
        0
    }
}

}
