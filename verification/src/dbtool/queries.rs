//! The rankings that a predictor is measured by. Judgments with exactly the same score share
//! the places that they occupy, so that nothing is gained from the order in which they
//! happen to be stored.

use vstd::prelude::*;

use crate::dbtool::golden::{GoldenLabel, TOP_K};
use crate::dbtool::metrics::{
    all_positions, positions, same_query, IdealOrder, PredictedOrder, QueryOrder,
};
use crate::score::Score;
use crate::sort::{lemma_sorted_members, sort_stable, stable_sorted};
use crate::text::str_eq;

verus! {

/// What a judgment of this relevance, which is at most three, adds to a ranking: two to the
/// power of it, less one.
pub open spec fn gain(relevance: u8) -> nat {
    if relevance == 0 {
        0
    } else if relevance == 1 {
        1
    } else if relevance == 2 {
        3
    } else {
        7
    }
}

fn gain_of(relevance: u8) -> (r: u64)
    ensures
        r == gain(relevance),
{
    if relevance == 0 {
        0
    } else if relevance == 1 {
        1
    } else if relevance == 2 {
        3
    } else {
        7
    }
}

/// The judgments from `start` up to `end` have the same score; `gain` is what they add
/// together.
#[derive(Debug, Clone, Copy, PartialEq, Eq, Structural)]
pub struct TieGroup {
    pub start: usize,
    pub end: usize,
    pub gain: u64,
}

/// Where the run of judgments with the score of the one at `start` ends, looking from `at`.
pub open spec fn tie_end(ranked: Seq<(u8, Score)>, start: int, at: int) -> int
    decreases ranked.len() - at,
{
    if at >= ranked.len() || ranked[at].1 != ranked[start].1 {
        at
    } else {
        tie_end(ranked, start, at + 1)
    }
}

pub open spec fn gain_sum(ranked: Seq<(u8, Score)>, start: int, end: int) -> nat
    decreases end - start,
{
    if end <= start {
        0
    } else {
        gain_sum(ranked, start, end - 1) + gain(ranked[end - 1].0)
    }
}

/// A run ends within the ranking, and holds equal scores only.
pub proof fn lemma_tie_end(ranked: Seq<(u8, Score)>, start: int, at: int)
    requires
        at <= ranked.len(),
    ensures
        at <= tie_end(ranked, start, at) <= ranked.len(),
        forall|i: int| at <= i < tie_end(ranked, start, at) ==> (#[trigger] ranked[i]).1
            == ranked[start].1,
        tie_end(ranked, start, at) < ranked.len() ==> ranked[tie_end(ranked, start, at)].1
            != ranked[start].1,
    decreases ranked.len() - at,
{
    if at < ranked.len() && ranked[at].1 == ranked[start].1 {
        lemma_tie_end(ranked, start, at + 1);
    }
}

/// The groups from `start` on that occupy one of the places that count.
pub open spec fn tie_groups(ranked: Seq<(u8, Score)>, start: int) -> Seq<TieGroup>
    decreases ranked.len() - start,
{
    if start >= ranked.len() || start >= TOP_K {
        Seq::empty()
    } else {
        let end = tie_end(ranked, start, start + 1);
        proof {
            lemma_tie_end(ranked, start, start + 1);
        }
        seq![
            TieGroup {
                start: start as usize,
                end: end as usize,
                gain: gain_sum(ranked, start, end) as u64,
            },
        ] + tie_groups(ranked, end)
    }
}

proof fn lemma_gain_bound(ranked: Seq<(u8, Score)>, start: int, end: int)
    requires
        start <= end,
    ensures
        gain_sum(ranked, start, end) <= 7 * (end - start),
    decreases end - start,
{
    if end > start {
        lemma_gain_bound(ranked, start, end - 1);
    }
}

fn group_ties(ranked: &Vec<(u8, Score)>) -> (r: Vec<TieGroup>)
    requires
        ranked@.len() * 7 <= u64::MAX,
    ensures
        r@ == tie_groups(ranked@, 0),
{
    let n: usize = ranked.len();
    let mut out: Vec<TieGroup> = Vec::new();
    let mut start: usize = 0;
    assert(out@ + tie_groups(ranked@, 0) =~= tie_groups(ranked@, 0));
    while start < n && start < TOP_K
        invariant
            0 <= start <= n == ranked@.len(),
            ranked@.len() * 7 <= u64::MAX,
            out@ + tie_groups(ranked@, start as int) == tie_groups(ranked@, 0),
        decreases n - start,
    {
        let ghost begin = start as int;
        let mut end: usize = start + 1;
        let mut gain: u64 = gain_of(ranked[start].0);
        assert(gain_sum(ranked@, begin, begin) == 0);
        while end < n && ranked[end].1 == ranked[start].1
            invariant
                start < end <= n == ranked@.len(),
                begin == start,
                ranked@.len() * 7 <= u64::MAX,
                gain == gain_sum(ranked@, begin, end as int),
                tie_end(ranked@, begin, begin + 1) == tie_end(ranked@, begin, end as int),
            decreases n - end,
        {
            proof {
                lemma_gain_bound(ranked@, begin, end + 1);
            }
            gain = gain + gain_of(ranked[end].0);
            end = end + 1;
        }
        let ghost before = out@;
        let group = TieGroup { start, end, gain };
        out.push(group);
        proof {
            assert(tie_groups(ranked@, begin) == seq![group] + tie_groups(ranked@, end as int));
            assert(out@ + tie_groups(ranked@, end as int) =~= before + tie_groups(ranked@, begin));
        }
        start = end;
    }
    assert(out@ + Seq::<TieGroup>::empty() =~= out@);
    out
}

/// Exchanging two neighbours with exactly the same score changes nothing: the same groups
/// come out, with the same gains.
pub proof fn lemma_ties_ignore_order(ranked: Seq<(u8, Score)>, p: int)
    requires
        0 <= p < ranked.len() - 1,
        ranked[p].1 == ranked[p + 1].1,
    ensures
        tie_groups(ranked.update(p, ranked[p + 1]).update(p + 1, ranked[p]), 0) == tie_groups(
            ranked,
            0,
        ),
{
    lemma_swap_from(ranked, ranked.update(p, ranked[p + 1]).update(p + 1, ranked[p]), p, 0);
}

proof fn lemma_swap_from(
    ranked: Seq<(u8, Score)>,
    other: Seq<(u8, Score)>,
    p: int,
    start: int,
)
    requires
        0 <= p < ranked.len() - 1,
        ranked[p].1 == ranked[p + 1].1,
        other == ranked.update(p, ranked[p + 1]).update(p + 1, ranked[p]),
        0 <= start <= ranked.len(),
        start != p + 1,
    ensures
        tie_groups(other, start) == tie_groups(ranked, start),
    decreases ranked.len() - start,
{
    if start < ranked.len() && start < TOP_K {
        let end = tie_end(ranked, start, start + 1);
        lemma_tie_end(ranked, start, start + 1);
        lemma_swap_tie_end(ranked, other, start, start + 1);
        if end == p + 1 {
            assert(ranked[p].1 == ranked[start].1);
        }
        lemma_swap_gain(ranked, other, p, start, end);
        lemma_swap_from(ranked, other, p, end);
    }
}

proof fn lemma_swap_tie_end(
    ranked: Seq<(u8, Score)>,
    other: Seq<(u8, Score)>,
    start: int,
    at: int,
)
    requires
        other.len() == ranked.len(),
        forall|i: int| 0 <= i < ranked.len() ==> (#[trigger] other[i]).1 == ranked[i].1,
        0 <= start < at <= ranked.len(),
    ensures
        tie_end(other, start, at) == tie_end(ranked, start, at),
    decreases ranked.len() - at,
{
    if at < ranked.len() {
        assert(other[at].1 == ranked[at].1);
        assert(other[start].1 == ranked[start].1);
        lemma_swap_tie_end(ranked, other, start, at + 1);
    }
}

proof fn lemma_swap_gain(
    ranked: Seq<(u8, Score)>,
    other: Seq<(u8, Score)>,
    p: int,
    start: int,
    end: int,
)
    requires
        0 <= p < ranked.len() - 1,
        other == ranked.update(p, ranked[p + 1]).update(p + 1, ranked[p]),
        0 <= start <= end <= ranked.len(),
        start != p + 1,
    ensures
        end != p + 1 ==> gain_sum(other, start, end) == gain_sum(ranked, start, end),
        end == p + 1 && start <= p ==> gain_sum(other, start, end) + gain(ranked[p].0) == gain_sum(
            ranked,
            start,
            end,
        ) + gain(ranked[p + 1].0),
    decreases end - start,
{
    if end > start {
        lemma_swap_gain(ranked, other, p, start, end - 1);
    }
}

// ---------------------------------------------------------------------------
// Queries
// ---------------------------------------------------------------------------

/// One query, ranked: the groups of the predicted ranking, and the relevances of the best
/// possible ranking, as far as they count.
#[derive(Debug)]
pub struct RankedQuery {
    pub groups: Vec<TieGroup>,
    pub ideal: Vec<u8>,
}

pub ghost struct QueryView {
    pub groups: Seq<TieGroup>,
    pub ideal: Seq<u8>,
}

/// Where the judgments of the query at `start` end, looking from `at`.
pub open spec fn query_end(labels: Seq<GoldenLabel>, order: Seq<usize>, start: int, at: int) -> int
    decreases order.len() - at,
{
    if at >= order.len() || !same_query(labels[order[at] as int], labels[order[start] as int]) {
        at
    } else {
        query_end(labels, order, start, at + 1)
    }
}

/// A query ends within the list.
pub proof fn lemma_query_end(labels: Seq<GoldenLabel>, order: Seq<usize>, start: int, at: int)
    requires
        at <= order.len(),
    ensures
        at <= query_end(labels, order, start, at) <= order.len(),
    decreases order.len() - at,
{
    if at < order.len() && same_query(labels[order[at] as int], labels[order[start] as int]) {
        lemma_query_end(labels, order, start, at + 1);
    }
}

/// The relevance and score of the judgments at these positions.
pub open spec fn rated(labels: Seq<GoldenLabel>, scores: Seq<Score>, at: Seq<usize>) -> Seq<
    (u8, Score),
> {
    at.map_values(|p: usize| (labels[p as int].relevance, scores[p as int]))
}

/// The relevances of the judgments at these positions, as far as they count.
pub open spec fn top_relevances(labels: Seq<GoldenLabel>, at: Seq<usize>) -> Seq<u8> {
    Seq::new(
        if at.len() <= TOP_K {
            at.len()
        } else {
            TOP_K as nat
        },
        |i: int| labels[at[i] as int].relevance,
    )
}

/// A query with one judgment ranks nothing, and neither does one without a relevant
/// judgment.
pub open spec fn query_view(labels: &Vec<GoldenLabel>, scores: &Vec<Score>, members: Seq<usize>) -> Option<
    QueryView,
> {
    let ideal = top_relevances(labels@, stable_sorted(members, &IdealOrder { labels }));
    if members.len() < 2 || ideal[0] == 0 {
        None
    } else {
        Some(
            QueryView {
                groups: tie_groups(
                    rated(
                        labels@,
                        scores@,
                        stable_sorted(members, &PredictedOrder { labels, scores }),
                    ),
                    0,
                ),
                ideal,
            },
        )
    }
}

/// The queries from `start` on, in the order of persona and section.
pub open spec fn query_views(
    labels: &Vec<GoldenLabel>,
    scores: &Vec<Score>,
    order: Seq<usize>,
    start: int,
) -> Seq<QueryView>
    decreases order.len() - start,
{
    if start >= order.len() {
        Seq::empty()
    } else {
        let end = query_end(labels@, order, start, start + 1);
        proof {
            lemma_query_end(labels@, order, start, start + 1);
        }
        let rest = query_views(labels, scores, order, end);
        match query_view(labels, scores, order.subrange(start, end)) {
            Some(query) => seq![query] + rest,
            None => rest,
        }
    }
}

pub open spec fn view_of(query: RankedQuery) -> QueryView {
    QueryView { groups: query.groups@, ideal: query.ideal@ }
}

pub open spec fn views_of(queries: Seq<RankedQuery>) -> Seq<QueryView> {
    queries.map_values(|q: RankedQuery| view_of(q))
}

fn slice_positions(order: &Vec<usize>, from: usize, to: usize) -> (r: Vec<usize>)
    requires
        from <= to <= order@.len(),
    ensures
        r@ == order@.subrange(from as int, to as int),
{
    let mut out: Vec<usize> = Vec::new();
    let mut i: usize = from;
    while i < to
        invariant
            from <= i <= to <= order@.len(),
            out@ == order@.subrange(from as int, i as int),
        decreases to - i,
    {
        proof {
            assert(order@.subrange(from as int, i + 1) =~= order@.subrange(
                from as int,
                i as int,
            ).push(order@[i as int]));
        }
        out.push(order[i]);
        i = i + 1;
    }
    out
}

fn rank_query(labels: &Vec<GoldenLabel>, scores: &Vec<Score>, members: Vec<usize>) -> (r: Option<
    RankedQuery,
>)
    requires
        scores@.len() == labels@.len(),
        members@.len() * 7 <= u64::MAX,
        forall|i: int| 0 <= i < members@.len() ==> (#[trigger] members@[i]) < labels@.len(),
    ensures
        match query_view(labels, scores, members@) {
            Some(view) => r is Some && view_of(r->0) == view,
            None => r is None,
        },
{
    let ghost input = members@;
    if members.len() < 2 {
        return None;
    }
    let best_rule = IdealOrder { labels };
    let copy = slice_positions(&members, 0, members.len());
    assert(copy@ =~= input);
    let best = sort_stable(copy, &best_rule);
    let ghost best_order = best@;
    proof {
        lemma_sorted_members(input, &best_rule);
        assert forall|i: int| 0 <= i < best@.len() implies (#[trigger] best@[i]) < labels@.len() by {
            assert(best@.contains(best@[i]));
            assert(input.contains(best@[i]));
        }
    }
    let mut ideal: Vec<u8> = Vec::new();
    let count: usize = if best.len() <= TOP_K {
        best.len()
    } else {
        TOP_K
    };
    let mut i: usize = 0;
    while i < count
        invariant
            0 <= i <= count <= best@.len(),
            forall|k: int| 0 <= k < best@.len() ==> (#[trigger] best@[k]) < labels@.len(),
            ideal@.len() == i,
            forall|k: int|
                0 <= k < i ==> #[trigger] ideal@[k] == labels@[best@[k] as int].relevance,
        decreases count - i,
    {
        ideal.push(labels[best[i]].relevance);
        i = i + 1;
    }
    assert(ideal@ =~= top_relevances(labels@, best_order));
    if ideal[0] == 0 {
        return None;
    }
    let rule = PredictedOrder { labels, scores };
    let ranked = sort_stable(members, &rule);
    proof {
        lemma_sorted_members(input, &rule);
        assert forall|k: int| 0 <= k < ranked@.len() implies (#[trigger] ranked@[k]) < labels@.len() by {
            assert(ranked@.contains(ranked@[k]));
            assert(input.contains(ranked@[k]));
        }
    }
    let mut pairs: Vec<(u8, Score)> = Vec::new();
    let mut j: usize = 0;
    while j < ranked.len()
        invariant
            0 <= j <= ranked@.len(),
            scores@.len() == labels@.len(),
            forall|k: int| 0 <= k < ranked@.len() ==> (#[trigger] ranked@[k]) < labels@.len(),
            pairs@.len() == j,
            forall|k: int|
                0 <= k < j ==> #[trigger] pairs@[k] == (
                    labels@[ranked@[k] as int].relevance,
                    scores@[ranked@[k] as int],
                ),
        decreases ranked@.len() - j,
    {
        pairs.push((labels[ranked[j]].relevance, scores[ranked[j]]));
        j = j + 1;
    }
    assert(pairs@ =~= rated(labels@, scores@, ranked@));
    Some(RankedQuery { groups: group_ties(&pairs), ideal })
}

/// The queries that a predictor is measured by: `scores` holds what it says of each judgment.
pub fn rank_queries(labels: &Vec<GoldenLabel>, scores: &Vec<Score>) -> (r: Vec<RankedQuery>)
    requires
        scores@.len() == labels@.len(),
        labels@.len() * 7 <= u64::MAX,
        forall|i: int| 0 <= i < labels@.len() ==> (#[trigger] labels@[i]).relevance <= 3,
    ensures
        views_of(r@) == query_views(
            labels,
            scores,
            stable_sorted(positions(labels@.len()), &QueryOrder { labels }),
            0,
        ),
{
    let rule = QueryOrder { labels };
    let all = all_positions(labels.len());
    let ghost input = all@;
    let order = sort_stable(all, &rule);
    proof {
        lemma_sorted_members(input, &rule);
        assert forall|i: int| 0 <= i < order@.len() implies (#[trigger] order@[i]) < labels@.len() by {
            assert(order@.contains(order@[i]));
            assert(input.contains(order@[i]));
        }
    }
    let n: usize = order.len();
    let mut out: Vec<RankedQuery> = Vec::new();
    let mut start: usize = 0;
    assert(views_of(out@) + query_views(labels, scores, order@, 0) =~= query_views(
        labels,
        scores,
        order@,
        0,
    ));
    while start < n
        invariant
            0 <= start <= n == order@.len() == labels@.len(),
            scores@.len() == labels@.len(),
            labels@.len() * 7 <= u64::MAX,
            forall|i: int| 0 <= i < order@.len() ==> (#[trigger] order@[i]) < labels@.len(),
            views_of(out@) + query_views(labels, scores, order@, start as int) == query_views(
                labels,
                scores,
                order@,
                0,
            ),
        decreases n - start,
    {
        let mut end: usize = start + 1;
        while end < n && labels[order[end]].section == labels[order[start]].section && str_eq(
            labels[order[end]].persona_id.as_str(),
            labels[order[start]].persona_id.as_str(),
        )
            invariant
                start < end <= n == order@.len() == labels@.len(),
                forall|i: int| 0 <= i < order@.len() ==> (#[trigger] order@[i]) < labels@.len(),
                query_end(labels@, order@, start as int, start + 1) == query_end(
                    labels@,
                    order@,
                    start as int,
                    end as int,
                ),
            decreases n - end,
        {
            end = end + 1;
        }
        let members = slice_positions(&order, start, end);
        let ghost rest = query_views(labels, scores, order@, end as int);
        let ghost before = views_of(out@);
        match rank_query(labels, scores, members) {
            Some(query) => {
                proof {
                    assert(views_of(out@.push(query)) =~= before.push(view_of(query)));
                    assert(before.push(view_of(query)) + rest =~= before + (seq![view_of(query)]
                        + rest));
                }
                out.push(query);
            },
            None => {},
        }
        start = end;
    }
    assert(views_of(out@) + Seq::<QueryView>::empty() =~= views_of(out@));
    out
}

} // verus!
