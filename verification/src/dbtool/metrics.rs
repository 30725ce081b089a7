//! What an evaluation compares: the pairs that a model is trained on, and the pairs that a
//! predictor is measured by. Counts are whole numbers here; what has to be divided is left
//! to the caller.

use vstd::prelude::*;

use crate::dbtool::golden::GoldenLabel;
use crate::score::Score;
use crate::server::feed_query::FeedSection;
use crate::sort::{
    chain, lemma_sorted_members, lemma_text_order_antisymmetric, lemma_text_order_transitive,
    sort_stable, stable_sorted, text_comparison, text_order, Precedence,
};
use crate::text::str_eq;

verus! {

// ---------------------------------------------------------------------------
// Orders of judgments
// ---------------------------------------------------------------------------

/// Judgments by persona, then by game.
pub struct PersonaGameOrder<'a> {
    pub labels: &'a Vec<GoldenLabel>,
}

pub open spec fn persona_game_rank(a: GoldenLabel, b: GoldenLabel) -> int {
    chain(text_order(a.persona_id@, b.persona_id@), a.app_id - b.app_id)
}

proof fn lemma_rank_total(x: Seq<char>, y: Seq<char>, a: int, b: int)
    ensures
        chain(text_order(x, y), a - b) <= 0 || chain(text_order(y, x), b - a) <= 0,
{
    lemma_text_order_antisymmetric(x, y);
}

proof fn lemma_rank_transitive(
    x: Seq<char>,
    y: Seq<char>,
    z: Seq<char>,
    a: int,
    b: int,
    c: int,
)
    requires
        chain(text_order(x, y), a - b) <= 0,
        chain(text_order(y, z), b - c) <= 0,
    ensures
        chain(text_order(x, z), a - c) <= 0,
{
    lemma_text_order_antisymmetric(x, y);
    lemma_text_order_antisymmetric(y, z);
    lemma_text_order_transitive(x, y, z);
}

impl<'a> Precedence<usize> for PersonaGameOrder<'a> {
    open spec fn orders(&self, item: usize) -> bool {
        item < self.labels@.len()
    }

    open spec fn precedes(&self, a: usize, b: usize) -> bool {
        persona_game_rank(self.labels@[a as int], self.labels@[b as int]) <= 0
    }

    proof fn lemma_total(&self, a: usize, b: usize) {
        let x = self.labels@[a as int];
        let y = self.labels@[b as int];
        lemma_rank_total(x.persona_id@, y.persona_id@, x.app_id as int, y.app_id as int);
    }

    proof fn lemma_transitive(&self, a: usize, b: usize, c: usize) {
        let x = self.labels@[a as int];
        let y = self.labels@[b as int];
        let z = self.labels@[c as int];
        lemma_rank_transitive(
            x.persona_id@,
            y.persona_id@,
            z.persona_id@,
            x.app_id as int,
            y.app_id as int,
            z.app_id as int,
        );
    }

    fn may_precede(&self, a: &usize, b: &usize) -> (r: bool) {
        let x = &self.labels[*a];
        let y = &self.labels[*b];
        let by_name: i8 = text_comparison(x.persona_id.as_str(), y.persona_id.as_str());
        by_name < 0 || (by_name == 0 && x.app_id <= y.app_id)
    }
}

/// The place of a section among the names of the sections.
pub open spec fn section_name_rank(section: FeedSection) -> int {
    match section {
        FeedSection::ClassicLegacy => 0,
        FeedSection::PopularLegacy => 1,
        FeedSection::RecentRelease => 2,
        FeedSection::Upcoming => 3,
    }
}

fn section_rank(section: FeedSection) -> (r: u8)
    ensures
        r == section_name_rank(section),
{
    match section {
        FeedSection::ClassicLegacy => 0,
        FeedSection::PopularLegacy => 1,
        FeedSection::RecentRelease => 2,
        FeedSection::Upcoming => 3,
    }
}

/// Judgments by persona, then by section.
pub struct QueryOrder<'a> {
    pub labels: &'a Vec<GoldenLabel>,
}

pub open spec fn query_rank(a: GoldenLabel, b: GoldenLabel) -> int {
    chain(
        text_order(a.persona_id@, b.persona_id@),
        section_name_rank(a.section) - section_name_rank(b.section),
    )
}

impl<'a> Precedence<usize> for QueryOrder<'a> {
    open spec fn orders(&self, item: usize) -> bool {
        item < self.labels@.len()
    }

    open spec fn precedes(&self, a: usize, b: usize) -> bool {
        query_rank(self.labels@[a as int], self.labels@[b as int]) <= 0
    }

    proof fn lemma_total(&self, a: usize, b: usize) {
        let x = self.labels@[a as int];
        let y = self.labels@[b as int];
        lemma_rank_total(
            x.persona_id@,
            y.persona_id@,
            section_name_rank(x.section),
            section_name_rank(y.section),
        );
    }

    proof fn lemma_transitive(&self, a: usize, b: usize, c: usize) {
        let x = self.labels@[a as int];
        let y = self.labels@[b as int];
        let z = self.labels@[c as int];
        lemma_rank_transitive(
            x.persona_id@,
            y.persona_id@,
            z.persona_id@,
            section_name_rank(x.section),
            section_name_rank(y.section),
            section_name_rank(z.section),
        );
    }

    fn may_precede(&self, a: &usize, b: &usize) -> (r: bool) {
        let x = &self.labels[*a];
        let y = &self.labels[*b];
        let by_name: i8 = text_comparison(x.persona_id.as_str(), y.persona_id.as_str());
        by_name < 0 || (by_name == 0 && section_rank(x.section) <= section_rank(y.section))
    }
}

/// Judgments by predicted score, best first; games by number where scores are equal.
pub struct PredictedOrder<'a> {
    pub labels: &'a Vec<GoldenLabel>,
    pub scores: &'a Vec<Score>,
}

impl<'a> Precedence<usize> for PredictedOrder<'a> {
    open spec fn orders(&self, item: usize) -> bool {
        item < self.labels@.len() && item < self.scores@.len()
    }

    open spec fn precedes(&self, a: usize, b: usize) -> bool {
        let x = self.scores@[a as int].key;
        let y = self.scores@[b as int].key;
        x > y || (x == y && self.labels@[a as int].app_id <= self.labels@[b as int].app_id)
    }

    proof fn lemma_total(&self, a: usize, b: usize) {
    }

    proof fn lemma_transitive(&self, a: usize, b: usize, c: usize) {
    }

    fn may_precede(&self, a: &usize, b: &usize) -> (r: bool) {
        let x: i64 = self.scores[*a].key;
        let y: i64 = self.scores[*b].key;
        x > y || (x == y && self.labels[*a].app_id <= self.labels[*b].app_id)
    }
}

/// Judgments by relevance, best first; games by number where they are equally relevant.
pub struct IdealOrder<'a> {
    pub labels: &'a Vec<GoldenLabel>,
}

impl<'a> Precedence<usize> for IdealOrder<'a> {
    open spec fn orders(&self, item: usize) -> bool {
        item < self.labels@.len()
    }

    open spec fn precedes(&self, a: usize, b: usize) -> bool {
        let x = self.labels@[a as int];
        let y = self.labels@[b as int];
        x.relevance > y.relevance || (x.relevance == y.relevance && x.app_id <= y.app_id)
    }

    proof fn lemma_total(&self, a: usize, b: usize) {
    }

    proof fn lemma_transitive(&self, a: usize, b: usize, c: usize) {
    }

    fn may_precede(&self, a: &usize, b: &usize) -> (r: bool) {
        let x = &self.labels[*a];
        let y = &self.labels[*b];
        x.relevance > y.relevance || (x.relevance == y.relevance && x.app_id <= y.app_id)
    }
}

// ---------------------------------------------------------------------------
// Training pairs
// ---------------------------------------------------------------------------

/// Of two judgments of one persona, the one that is preferred and the one that is not;
/// nothing where neither is.
pub open spec fn preference(labels: Seq<GoldenLabel>, left: usize, right: usize) -> Option<
    (usize, usize),
> {
    let a = labels[left as int];
    let b = labels[right as int];
    if a.persona_id@ != b.persona_id@ || a.relevance == b.relevance {
        None
    } else if a.relevance > b.relevance {
        Some((left, right))
    } else {
        Some((right, left))
    }
}

/// The preferences between the judgment at `left` and those behind it, up to `upto`.
pub open spec fn row_preferences(
    labels: Seq<GoldenLabel>,
    order: Seq<usize>,
    left: int,
    upto: int,
) -> Seq<(usize, usize)>
    decreases upto - left,
{
    if upto <= left + 1 {
        Seq::empty()
    } else {
        let front = row_preferences(labels, order, left, upto - 1);
        match preference(labels, order[left], order[upto - 1]) {
            Some(pair) => front.push(pair),
            None => front,
        }
    }
}

/// The preferences of the first `n` judgments against all behind them.
pub open spec fn preferences(labels: Seq<GoldenLabel>, order: Seq<usize>, n: int) -> Seq<
    (usize, usize),
>
    decreases n,
{
    if n <= 0 {
        Seq::empty()
    } else {
        preferences(labels, order, n - 1) + row_preferences(
            labels,
            order,
            n - 1,
            order.len() as int,
        )
    }
}

/// All the positions of a list.
pub open spec fn positions(n: nat) -> Seq<usize> {
    Seq::new(n, |i: int| i as usize)
}

pub fn all_positions(n: usize) -> (r: Vec<usize>)
    ensures
        r@ == positions(n as nat),
{
    let mut out: Vec<usize> = Vec::new();
    let mut i: usize = 0;
    while i < n
        invariant
            0 <= i <= n,
            out@ == positions(i as nat),
        decreases n - i,
    {
        proof {
            assert(positions((i + 1) as nat) =~= positions(i as nat).push(i));
        }
        out.push(i);
        i = i + 1;
    }
    out
}

/// The pairs that a model is trained on: for each persona in turn, and each two of its
/// judgments by game, which one is preferred to which. Only the judgments at `members`
/// count.
pub fn build_pairs(labels: &Vec<GoldenLabel>, members: Vec<usize>) -> (r: Vec<(usize, usize)>)
    requires
        forall|i: int| 0 <= i < members@.len() ==> (#[trigger] members@[i]) < labels@.len(),
    ensures
        ({
            let order = stable_sorted(members@, &PersonaGameOrder { labels });
            r@ == preferences(labels@, order, order.len() as int)
        }),
{
    let rule = PersonaGameOrder { labels };
    let ghost input = members@;
    let order = sort_stable(members, &rule);
    proof {
        lemma_sorted_members(input, &rule);
        assert forall|i: int| 0 <= i < order@.len() implies (#[trigger] order@[i]) < labels@.len() by {
            assert(order@.contains(order@[i]));
            assert(input.contains(order@[i]));
        }
    }
    let n: usize = order.len();
    let mut out: Vec<(usize, usize)> = Vec::new();
    let mut left: usize = 0;
    while left < n
        invariant
            0 <= left <= n == order@.len(),
            forall|i: int| 0 <= i < order@.len() ==> (#[trigger] order@[i]) < labels@.len(),
            out@ == preferences(labels@, order@, left as int),
        decreases n - left,
    {
        let ghost before = out@;
        let mut right: usize = left + 1;
        assert(before + row_preferences(labels@, order@, left as int, left + 1) =~= before);
        while right < n
            invariant
                left < right <= n == order@.len(),
                forall|i: int| 0 <= i < order@.len() ==> (#[trigger] order@[i]) < labels@.len(),
                out@ == before + row_preferences(labels@, order@, left as int, right as int),
            decreases n - right,
        {
            let a = &labels[order[left]];
            let b = &labels[order[right]];
            let ghost row = row_preferences(labels@, order@, left as int, right as int);
            if a.relevance != b.relevance && str_eq(a.persona_id.as_str(), b.persona_id.as_str()) {
                let pair: (usize, usize) = if a.relevance > b.relevance {
                    (order[left], order[right])
                } else {
                    (order[right], order[left])
                };
                proof {
                    assert((before + row).push(pair) =~= before + row.push(pair));
                }
                out.push(pair);
            }
            right = right + 1;
        }
        left = left + 1;
    }
    out
}

/// Every training pair is of one persona, and its first judgment is the more relevant one.
pub proof fn lemma_pairs_prefer_the_relevant(
    labels: Seq<GoldenLabel>,
    order: Seq<usize>,
    n: int,
    k: int,
)
    requires
        0 <= k < preferences(labels, order, n).len(),
    ensures
        ({
            let (winner, loser) = preferences(labels, order, n)[k];
            &&& labels[winner as int].persona_id@ == labels[loser as int].persona_id@
            &&& labels[winner as int].relevance > labels[loser as int].relevance
        }),
    decreases n,
{
    if n > 0 {
        let front = preferences(labels, order, n - 1);
        let row = row_preferences(labels, order, n - 1, order.len() as int);
        if k < front.len() {
            lemma_pairs_prefer_the_relevant(labels, order, n - 1, k);
            assert(preferences(labels, order, n)[k] == front[k]);
        } else {
            assert(preferences(labels, order, n)[k] == row[k - front.len()]);
            lemma_row_prefers(labels, order, n - 1, order.len() as int, k - front.len());
        }
    }
}

proof fn lemma_row_prefers(
    labels: Seq<GoldenLabel>,
    order: Seq<usize>,
    left: int,
    upto: int,
    k: int,
)
    requires
        0 <= k < row_preferences(labels, order, left, upto).len(),
    ensures
        ({
            let (winner, loser) = row_preferences(labels, order, left, upto)[k];
            &&& labels[winner as int].persona_id@ == labels[loser as int].persona_id@
            &&& labels[winner as int].relevance > labels[loser as int].relevance
        }),
    decreases upto - left,
{
    if upto > left + 1 {
        let front = row_preferences(labels, order, left, upto - 1);
        if k < front.len() {
            lemma_row_prefers(labels, order, left, upto - 1, k);
        }
    }
}

// ---------------------------------------------------------------------------
// Pair accuracy
// ---------------------------------------------------------------------------

/// The two are answers to the same query: one persona in one section.
pub open spec fn same_query(a: GoldenLabel, b: GoldenLabel) -> bool {
    a.persona_id@ == b.persona_id@ && a.section == b.section
}

/// The pair counts: same query, and one is more relevant than the other.
pub open spec fn is_scored_pair(labels: Seq<GoldenLabel>, i: int, j: int) -> bool {
    same_query(labels[i], labels[j]) && labels[i].relevance != labels[j].relevance
}

/// The credit of a pair in halves: two for the right direction, one for equal scores.
pub open spec fn credit(labels: Seq<GoldenLabel>, scores: Seq<Score>, i: int, j: int) -> nat {
    if scores[i].key == scores[j].key {
        1
    } else if (scores[i].key > scores[j].key) == (labels[i].relevance > labels[j].relevance) {
        2
    } else {
        0
    }
}

/// The pairs of judgment `i` with later ones before `upto`: how many, and their credit.
pub open spec fn row_totals(
    labels: Seq<GoldenLabel>,
    scores: Seq<Score>,
    i: int,
    upto: int,
) -> (nat, nat)
    decreases upto - i,
{
    if upto <= i + 1 {
        (0, 0)
    } else {
        let (pairs, halves) = row_totals(labels, scores, i, upto - 1);
        if is_scored_pair(labels, i, upto - 1) {
            (pairs + 1, halves + credit(labels, scores, i, upto - 1))
        } else {
            (pairs, halves)
        }
    }
}

/// The pairs of the first `n` judgments with all later ones.
pub open spec fn pair_totals(labels: Seq<GoldenLabel>, scores: Seq<Score>, n: int) -> (nat, nat)
    decreases n,
{
    if n <= 0 {
        (0, 0)
    } else {
        let (pairs, halves) = pair_totals(labels, scores, n - 1);
        let (row, row_halves) = row_totals(labels, scores, n - 1, labels.len() as int);
        (pairs + row, halves + row_halves)
    }
}

/// The pairs of judgment `i` with later ones before `upto` that have equal scores.
pub open spec fn row_ties(labels: Seq<GoldenLabel>, scores: Seq<Score>, i: int, upto: int) -> nat
    decreases upto - i,
{
    if upto <= i + 1 {
        0
    } else {
        row_ties(labels, scores, i, upto - 1) + (if is_scored_pair(labels, i, upto - 1)
            && scores[i].key == scores[upto - 1].key {
            1nat
        } else {
            0
        })
    }
}

/// The pairs of the first `n` judgments with all later ones that have equal scores.
pub open spec fn tie_totals(labels: Seq<GoldenLabel>, scores: Seq<Score>, n: int) -> nat
    decreases n,
{
    if n <= 0 {
        0
    } else {
        tie_totals(labels, scores, n - 1) + row_ties(labels, scores, n - 1, labels.len() as int)
    }
}

proof fn lemma_row_bound(labels: Seq<GoldenLabel>, scores: Seq<Score>, i: int, upto: int)
    requires
        i < upto,
    ensures
        row_totals(labels, scores, i, upto).0 <= upto - i - 1,
        row_totals(labels, scores, i, upto).1 <= 2 * row_totals(labels, scores, i, upto).0,
    decreases upto - i,
{
    if upto > i + 1 {
        lemma_row_bound(labels, scores, i, upto - 1);
    }
}

/// The credit never exceeds what the pairs can earn.
pub proof fn lemma_pair_credit_bounded(labels: Seq<GoldenLabel>, scores: Seq<Score>, n: int)
    requires
        0 <= n <= labels.len(),
    ensures
        pair_totals(labels, scores, n).1 <= 2 * pair_totals(labels, scores, n).0,
        pair_totals(labels, scores, n).0 <= n * labels.len(),
    decreases n,
{
    if n > 0 {
        lemma_pair_credit_bounded(labels, scores, n - 1);
        lemma_row_bound(labels, scores, n - 1, labels.len() as int);
        assert((n - 1) * labels.len() + labels.len() == n * labels.len()) by (nonlinear_arith);
    } else {
        assert(0 * labels.len() == 0);
    }
}

/// A predictor that orders every pair by its relevance earns the whole credit, and one that
/// orders every pair against it earns none.
pub proof fn lemma_direction_is_rewarded(
    labels: Seq<GoldenLabel>,
    good: Seq<Score>,
    bad: Seq<Score>,
    n: int,
)
    requires
        0 <= n <= labels.len(),
        forall|i: int, j: int|
            #![trigger is_scored_pair(labels, i, j)]
            0 <= i < j < labels.len() && is_scored_pair(labels, i, j) ==> {
                &&& (good[i].key > good[j].key) == (labels[i].relevance > labels[j].relevance)
                &&& (bad[i].key > bad[j].key) == (labels[i].relevance < labels[j].relevance)
                &&& good[i].key != good[j].key
                &&& bad[i].key != bad[j].key
            },
    ensures
        pair_totals(labels, good, n).1 == 2 * pair_totals(labels, good, n).0,
        pair_totals(labels, bad, n).1 == 0,
        pair_totals(labels, bad, n).0 == pair_totals(labels, good, n).0,
    decreases n,
{
    if n > 0 {
        lemma_direction_is_rewarded(labels, good, bad, n - 1);
        lemma_row_direction(labels, good, bad, n - 1, labels.len() as int);
    }
}

proof fn lemma_row_direction(
    labels: Seq<GoldenLabel>,
    good: Seq<Score>,
    bad: Seq<Score>,
    i: int,
    upto: int,
)
    requires
        0 <= i < upto <= labels.len(),
        forall|i: int, j: int|
            #![trigger is_scored_pair(labels, i, j)]
            0 <= i < j < labels.len() && is_scored_pair(labels, i, j) ==> {
                &&& (good[i].key > good[j].key) == (labels[i].relevance > labels[j].relevance)
                &&& (bad[i].key > bad[j].key) == (labels[i].relevance < labels[j].relevance)
                &&& good[i].key != good[j].key
                &&& bad[i].key != bad[j].key
            },
    ensures
        row_totals(labels, good, i, upto).1 == 2 * row_totals(labels, good, i, upto).0,
        row_totals(labels, bad, i, upto).1 == 0,
        row_totals(labels, bad, i, upto).0 == row_totals(labels, good, i, upto).0,
    decreases upto - i,
{
    if upto > i + 1 {
        lemma_row_direction(labels, good, bad, i, upto - 1);
        if is_scored_pair(labels, i, upto - 1) {
            assert(labels[i].relevance != labels[upto - 1].relevance);
        }
    }
}

/// The pairs that a predictor is measured by: how many of them it puts in the right order,
/// and how many it leaves tied. A tie is worth half of a correct pair.
#[derive(Debug, Clone, Copy, PartialEq, Eq, Structural)]
pub struct PairCounts {
    pub pairs: u128,
    pub correct: u128,
    pub tied: u128,
}

pub fn count_pairs(labels: &Vec<GoldenLabel>, scores: &Vec<Score>) -> (r: PairCounts)
    requires
        scores@.len() == labels@.len(),
    ensures
        r.pairs == pair_totals(labels@, scores@, labels@.len() as int).0,
        r.tied == tie_totals(labels@, scores@, labels@.len() as int),
        2 * r.correct == pair_totals(labels@, scores@, labels@.len() as int).1 - r.tied,
        r.correct + r.tied <= r.pairs,
{
    let n: usize = labels.len();
    let mut pairs: u128 = 0;
    let mut correct: u128 = 0;
    let mut tied: u128 = 0;
    let mut i: usize = 0;
    while i < n
        invariant
            0 <= i <= n == labels@.len() == scores@.len(),
            (pairs as nat, (2 * correct + tied) as nat) == pair_totals(labels@, scores@, i as int),
            tied == tie_totals(labels@, scores@, i as int),
            correct + tied <= pairs,
        decreases n - i,
    {
        let ghost (base, base_halves) = pair_totals(labels@, scores@, i as int);
        proof {
            lemma_pair_credit_bounded(labels@, scores@, i as int);
            assert(i * labels@.len() + labels@.len() <= 0xffff_ffff_ffff_ffff
                * 0xffff_ffff_ffff_ffff) by (nonlinear_arith)
                requires
                    i < labels@.len() <= 0xffff_ffff_ffff_ffff,
            ;
        }
        let mut j: usize = i + 1;
        while j < n
            invariant
                i < j <= n == labels@.len() == scores@.len(),
                pairs == base + row_totals(labels@, scores@, i as int, j as int).0,
                2 * correct + tied == base_halves + row_totals(
                    labels@,
                    scores@,
                    i as int,
                    j as int,
                ).1,
                tied == tie_totals(labels@, scores@, i as int) + row_ties(
                    labels@,
                    scores@,
                    i as int,
                    j as int,
                ),
                correct + tied <= pairs,
                base <= i * labels@.len(),
                i * labels@.len() + labels@.len() <= 0xffff_ffff_ffff_ffff * 0xffff_ffff_ffff_ffff,
            decreases n - j,
        {
            proof {
                lemma_row_bound(labels@, scores@, i as int, j + 1);
            }
            if labels[i].relevance != labels[j].relevance && labels[i].section == labels[j].section
                && str_eq(labels[i].persona_id.as_str(), labels[j].persona_id.as_str()) {
                let a: i64 = scores[i].key;
                let b: i64 = scores[j].key;
                pairs = pairs + 1;
                if a == b {
                    tied = tied + 1;
                } else if (a > b) == (labels[i].relevance > labels[j].relevance) {
                    correct = correct + 1;
                }
            }
            j = j + 1;
        }
        i = i + 1;
    }
    PairCounts { pairs, correct, tied }
}

} // verus!
