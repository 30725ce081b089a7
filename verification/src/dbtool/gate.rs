//! When learned weights may replace the rules, and how an evaluation is asked for.

use vstd::prelude::*;

use crate::dbtool::golden::{GoldenLabel, FEATURE_COUNT};
use crate::score::Score;
use crate::server::feed_query::FeedSection;
use crate::text::{join2, str_eq, views};

verus! {

/// The key of 0.80.
pub const MIN_NDCG_KEY: i64 = 0x3fe9_9999_9999_999a;

/// The key of 0.90.
pub const MIN_PAIR_ACCURACY_KEY: i64 = 0x3fec_cccc_cccc_cccd;

/// The key of 0.05.
pub const MIN_RELATIVE_LIFT_KEY: i64 = 0x3fa9_9999_9999_999a;

// ---------------------------------------------------------------------------
// Splits
// ---------------------------------------------------------------------------

/// The positions, before `n`, of the judgments that are in the fold, or that are not.
pub open spec fn fold_members(folds: Seq<usize>, fold: usize, inside: bool, n: int) -> Seq<usize>
    decreases n,
{
    if n <= 0 {
        Seq::empty()
    } else {
        let front = fold_members(folds, fold, inside, n - 1);
        if (folds[n - 1] == fold) == inside {
            front.push((n - 1) as usize)
        } else {
            front
        }
    }
}

/// The judgments that a model is trained on when a fold is held out, and those that it is
/// evaluated on.
pub fn split_fold(folds: &Vec<usize>, fold: usize) -> (r: (Vec<usize>, Vec<usize>))
    ensures
        r.0@ == fold_members(folds@, fold, false, folds@.len() as int),
        r.1@ == fold_members(folds@, fold, true, folds@.len() as int),
{
    let mut training: Vec<usize> = Vec::new();
    let mut evaluation: Vec<usize> = Vec::new();
    let mut i: usize = 0;
    while i < folds.len()
        invariant
            0 <= i <= folds@.len(),
            training@ == fold_members(folds@, fold, false, i as int),
            evaluation@ == fold_members(folds@, fold, true, i as int),
        decreases folds@.len() - i,
    {
        if folds[i] == fold {
            evaluation.push(i);
        } else {
            training.push(i);
        }
        i = i + 1;
    }
    (training, evaluation)
}

/// Nothing is evaluated on what it was trained on: every judgment is on exactly one side of
/// a split.
pub proof fn lemma_split_separates(folds: Seq<usize>, fold: usize, n: int, i: usize)
    requires
        0 <= n <= folds.len(),
        folds.len() <= usize::MAX,
    ensures
        fold_members(folds, fold, true, n).contains(i) <==> i < n && folds[i as int] == fold,
        fold_members(folds, fold, false, n).contains(i) <==> i < n && folds[i as int] != fold,
        fold_members(folds, fold, true, n).len() + fold_members(folds, fold, false, n).len() == n,
    decreases n,
{
    if n > 0 {
        lemma_split_separates(folds, fold, n - 1, i);
        let last = (n - 1) as usize;
        let inside = folds[n - 1] == fold;
        let grown = fold_members(folds, fold, inside, n);
        let front = fold_members(folds, fold, inside, n - 1);
        assert(grown == front.push(last));
        assert(grown.contains(i) <==> front.contains(i) || i == last) by {
            if front.contains(i) {
                let k = choose|k: int| 0 <= k < front.len() && front[k] == i;
                assert(grown[k] == i);
            }
            if i == last {
                assert(grown[front.len() as int] == i);
            }
            if grown.contains(i) && i != last {
                let k = choose|k: int| 0 <= k < grown.len() && grown[k] == i;
                assert(front[k] == i);
            }
        }
        assert(fold_members(folds, fold, !inside, n) == fold_members(folds, fold, !inside, n - 1));
    }
}

/// The members of a section among these judgments, in their order.
pub open spec fn of_section(labels: Seq<GoldenLabel>, members: Seq<usize>, section: FeedSection) -> Seq<
    usize,
>
    decreases members.len(),
{
    if members.len() == 0 {
        Seq::empty()
    } else {
        let front = of_section(labels, members.drop_last(), section);
        if labels[members.last() as int].section == section {
            front.push(members.last())
        } else {
            front
        }
    }
}

pub fn section_members(labels: &Vec<GoldenLabel>, members: &Vec<usize>, section: FeedSection) -> (r:
    Vec<usize>)
    requires
        forall|i: int| 0 <= i < members@.len() ==> (#[trigger] members@[i]) < labels@.len(),
    ensures
        r@ == of_section(labels@, members@, section),
        forall|i: int| 0 <= i < r@.len() ==> (#[trigger] r@[i]) < labels@.len(),
{
    let mut out: Vec<usize> = Vec::new();
    let mut i: usize = 0;
    assert(members@.take(0) =~= Seq::empty());
    while i < members.len()
        invariant
            0 <= i <= members@.len(),
            forall|k: int| 0 <= k < members@.len() ==> (#[trigger] members@[k]) < labels@.len(),
            forall|k: int| 0 <= k < out@.len() ==> (#[trigger] out@[k]) < labels@.len(),
            out@ == of_section(labels@, members@.take(i as int), section),
        decreases members@.len() - i,
    {
        proof {
            assert(members@.take(i + 1).drop_last() =~= members@.take(i as int));
            assert(members@.take(i + 1).last() == members@[i as int]);
        }
        if labels[members[i]].section == section {
            out.push(members[i]);
        }
        i = i + 1;
    }
    assert(members@.take(members@.len() as int) =~= members@);
    out
}

// ---------------------------------------------------------------------------
// The rules as weights
// ---------------------------------------------------------------------------

/// What the rules of a section weigh each feature with, in ten-thousandths: personal fit,
/// quality, activity, momentum, freshness, demo, date confidence, studio prior, longevity,
/// maintenance and risk.
pub open spec fn rule_weights(section: FeedSection) -> Seq<int> {
    match section {
        FeedSection::RecentRelease => seq![
            4_500int, 2_200, 1_100, 825, 1_375, 0, 0, 0, 0, 0, -1_100,
        ],
        FeedSection::Upcoming => seq![
            4_500int, 0, 0, 0, 1_375, 1_925, 1_100, 1_100, 0, 0, -1_100,
        ],
        FeedSection::PopularLegacy => seq![
            4_500int, 1_650, 2_200, 1_100, 0, 0, 0, 0, 0, 550, -1_100,
        ],
        FeedSection::ClassicLegacy => seq![
            4_500int, 2_475, 825, 0, 0, 0, 0, 0, 1_375, 825, -1_100,
        ],
    }
}

pub fn current_rule_weights(section: FeedSection) -> (r: [i32; 11])
    ensures
        forall|i: int| 0 <= i < FEATURE_COUNT ==> #[trigger] r@[i] == rule_weights(section)[i],
{
    let r: [i32; 11] = match section {
        FeedSection::RecentRelease => [4_500i32, 2_200, 1_100, 825, 1_375, 0, 0, 0, 0, 0, -1_100],
        FeedSection::Upcoming => [4_500i32, 0, 0, 0, 1_375, 1_925, 1_100, 1_100, 0, 0, -1_100],
        FeedSection::PopularLegacy => [4_500i32, 1_650, 2_200, 1_100, 0, 0, 0, 0, 0, 550, -1_100],
        FeedSection::ClassicLegacy => [4_500i32, 2_475, 825, 0, 0, 0, 0, 0, 1_375, 825, -1_100],
    };
    r
}

/// The rules keep the constraints that learned weights have to keep: personal fit weighs
/// between 0.35 and 0.55, nothing but the risk counts against a game, and what counts for it
/// adds up to one.
pub proof fn lemma_rules_keep_the_constraints(section: FeedSection)
    ensures
        rule_weights(section).len() == FEATURE_COUNT,
        3_500 <= rule_weights(section)[0] <= 5_500,
        forall|i: int| 0 <= i < 10 ==> (#[trigger] rule_weights(section)[i]) >= 0,
        rule_weights(section)[10] <= 0,
        rule_weights(section)[0] + rule_weights(section)[1] + rule_weights(section)[2]
            + rule_weights(section)[3] + rule_weights(section)[4] + rule_weights(section)[5]
            + rule_weights(section)[6] + rule_weights(section)[7] + rule_weights(section)[8]
            + rule_weights(section)[9] == 10_000,
{
}

// ---------------------------------------------------------------------------
// Whether learned weights may be frozen
// ---------------------------------------------------------------------------

/// What one fold was evaluated on.
#[derive(Debug, Clone, Copy, PartialEq, Eq, Structural)]
pub struct FoldCounts {
    pub queries: usize,
    pub pairs: u128,
}

/// The figures that a holdout is judged by. A lift is `None` where one of the two figures
/// that it compares is missing.
#[derive(Debug, Clone, Copy, PartialEq, Eq, Structural)]
pub struct HoldoutFigures {
    pub learned_ndcg: Option<Score>,
    pub pair_accuracy: Option<Score>,
    pub lift_over_current_rule: Option<Score>,
    pub lift_over_ccu: Option<Score>,
    pub lift_over_reviews: Option<Score>,
}

pub open spec fn reaches_key(value: Option<Score>, key: i64) -> bool {
    value is Some && value->0.at_least(Score { key })
}

fn figure_reaches(value: Option<Score>, key: i64) -> (r: bool)
    ensures
        r == reaches_key(value, key),
{
    match value {
        Some(score) => score.reaches(Score { key }),
        None => false,
    }
}

/// Every fold had something to rank and something to compare.
pub open spec fn folds_evaluable(folds: Seq<FoldCounts>) -> bool {
    forall|i: int|
        0 <= i < folds.len() ==> (#[trigger] folds[i]).queries > 0 && folds[i].pairs > 0
}

pub fn all_folds_evaluable(folds: &Vec<FoldCounts>) -> (r: bool)
    ensures
        r == folds_evaluable(folds@),
{
    let mut i: usize = 0;
    while i < folds.len()
        invariant
            0 <= i <= folds@.len(),
            forall|k: int|
                0 <= k < i ==> (#[trigger] folds@[k]).queries > 0 && folds@[k].pairs > 0,
        decreases folds@.len() - i,
    {
        if folds[i].queries == 0 || folds[i].pairs == 0 {
            assert(!(folds@[i as int].queries > 0 && folds@[i as int].pairs > 0));
            return false;
        }
        i = i + 1;
    }
    true
}

/// A holdout passes when every fold could be evaluated, the learned ranking is good in
/// itself, and it is better than every baseline.
pub open spec fn passes_holdout(folds: Seq<FoldCounts>, figures: HoldoutFigures) -> bool {
    &&& folds_evaluable(folds)
    &&& reaches_key(figures.learned_ndcg, MIN_NDCG_KEY)
    &&& reaches_key(figures.pair_accuracy, MIN_PAIR_ACCURACY_KEY)
    &&& reaches_key(figures.lift_over_current_rule, MIN_RELATIVE_LIFT_KEY)
    &&& reaches_key(figures.lift_over_ccu, MIN_RELATIVE_LIFT_KEY)
    &&& reaches_key(figures.lift_over_reviews, MIN_RELATIVE_LIFT_KEY)
}

pub fn holdout_gate(folds: &Vec<FoldCounts>, figures: &HoldoutFigures) -> (r: bool)
    ensures
        r == passes_holdout(folds@, *figures),
{
    all_folds_evaluable(folds) && figure_reaches(figures.learned_ndcg, MIN_NDCG_KEY)
        && figure_reaches(figures.pair_accuracy, MIN_PAIR_ACCURACY_KEY) && figure_reaches(
        figures.lift_over_current_rule,
        MIN_RELATIVE_LIFT_KEY,
    ) && figure_reaches(figures.lift_over_ccu, MIN_RELATIVE_LIFT_KEY) && figure_reaches(
        figures.lift_over_reviews,
        MIN_RELATIVE_LIFT_KEY,
    )
}

/// No count is zero.
pub open spec fn all_counted(counts: Seq<usize>) -> bool {
    forall|i: int| 0 <= i < counts.len() ==> (#[trigger] counts[i]) > 0
}

/// Weights may be adopted when every section could be trained and both holdouts pass.
/// `section_pairs` holds the number of training pairs of each section.
pub fn freeze_eligible(section_pairs: &Vec<usize>, persona_passed: bool, game_passed: bool) -> (r:
    bool)
    ensures
        r == (persona_passed && game_passed && all_counted(section_pairs@)),
{
    let mut i: usize = 0;
    while i < section_pairs.len()
        invariant
            0 <= i <= section_pairs@.len(),
            forall|k: int| 0 <= k < i ==> (#[trigger] section_pairs@[k]) > 0,
        decreases section_pairs@.len() - i,
    {
        if section_pairs[i] == 0 {
            assert(!(section_pairs@[i as int] > 0));
            return false;
        }
        i = i + 1;
    }
    persona_passed && game_passed
}

// ---------------------------------------------------------------------------
// The command line
// ---------------------------------------------------------------------------

pub const EVALUATION_USAGE: &'static str = "recommendation-golden-evaluate <labels.json> [--json]";

#[derive(Debug)]
pub struct EvaluationOptions {
    pub labels_path: String,
    pub json: bool,
}

/// The first argument, from `k` on, that is not an option.
pub open spec fn unknown_option(args: Seq<Seq<char>>, k: int) -> Option<Seq<char>>
    decreases args.len() - k,
{
    if k >= args.len() {
        None
    } else if args[k] != "--json"@ {
        Some(args[k])
    } else {
        unknown_option(args, k + 1)
    }
}

pub fn parse_evaluation_args(args: &Vec<String>) -> (r: Result<EvaluationOptions, String>)
    ensures
        args@.len() == 0 ==> (r matches Err(message) && message@ == EVALUATION_USAGE@),
        args@.len() > 0 ==> match unknown_option(views(args@), 1) {
            Some(option) => r matches Err(message) && message@
                == "unknown recommendation-golden-evaluate option: "@ + option,
            None => r matches Ok(options) && options.labels_path@ == args@[0]@ && options.json == (
            args@.len() > 1),
        },
{
    if args.len() == 0 {
        return Err(EVALUATION_USAGE.to_owned());
    }
    let mut i: usize = 1;
    while i < args.len()
        invariant
            1 <= i <= args@.len(),
            unknown_option(views(args@), 1) == unknown_option(views(args@), i as int),
        decreases args@.len() - i,
    {
        assert(views(args@)[i as int] == args@[i as int]@);
        if !str_eq(args[i].as_str(), "--json") {
            return Err(
                join2("unknown recommendation-golden-evaluate option: ", args[i].as_str()),
            );
        }
        i = i + 1;
    }
    Ok(EvaluationOptions { labels_path: args[0].clone(), json: args.len() > 1 })
}

} // verus!
