//! What an evaluation on labelled judgments promises.

use vstd::prelude::*;

use crate::dbtool::folds::{fold_assignments, Holdout};
use crate::dbtool::gate::{
    current_rule_weights, fold_members, freeze_eligible, holdout_gate, of_section, section_members,
    split_fold, FoldCounts, HoldoutFigures,
};
use crate::dbtool::golden::{
    distinct, section_index, validate_dataset, GoldenDataset, GoldenLabel,
};
use crate::dbtool::metrics::{
    build_pairs, count_pairs, pair_totals, preferences, row_preferences, row_ties, row_totals,
    tie_totals, IdealOrder, PairCounts, PersonaGameOrder, PredictedOrder, QueryOrder,
};
use crate::dbtool::queries::{
    query_view, query_views, rank_queries, tie_groups, QueryView, RankedQuery, TieGroup,
};
use crate::score::Score;
use crate::server::feed_query::FeedSection;
use crate::sort::{stable_sorted, Precedence};

verus! {

// ---------------------------------------------------------------------------
// Holdouts
// ---------------------------------------------------------------------------

/// A figure that is a number and at least the one with this key.
pub open spec fn is_at_least(figure: Option<Score>, key: i64) -> bool {
    figure is Some && key <= figure->0.key <= 0x7ff0_0000_0000_0000
}

/// A holdout passes exactly where every fold had queries and pairs, the ranking quality is at
/// least 0.80, the pair accuracy at least 0.90, and each of the three baselines is beaten by at
/// least 0.05.
pub proof fn law_holdout_needs_every_figure(
    folds: Vec<FoldCounts>,
    figures: HoldoutFigures,
    r: bool,
)
    requires
        call_ensures(holdout_gate, (&folds, &figures), r),
    ensures
        r ==> is_at_least(figures.learned_ndcg, 0x3fe9_9999_9999_999a),
        r ==> is_at_least(figures.pair_accuracy, 0x3fec_cccc_cccc_cccd),
        r ==> is_at_least(figures.lift_over_current_rule, 0x3fa9_9999_9999_999a),
        r ==> is_at_least(figures.lift_over_ccu, 0x3fa9_9999_9999_999a),
        r ==> is_at_least(figures.lift_over_reviews, 0x3fa9_9999_9999_999a),
        r ==> forall|i: int|
            0 <= i < folds@.len() ==> (#[trigger] folds@[i]).queries != 0 && folds@[i].pairs != 0,
        !r ==> {
            ||| !is_at_least(figures.learned_ndcg, 0x3fe9_9999_9999_999a)
            ||| !is_at_least(figures.pair_accuracy, 0x3fec_cccc_cccc_cccd)
            ||| !is_at_least(figures.lift_over_current_rule, 0x3fa9_9999_9999_999a)
            ||| !is_at_least(figures.lift_over_ccu, 0x3fa9_9999_9999_999a)
            ||| !is_at_least(figures.lift_over_reviews, 0x3fa9_9999_9999_999a)
            ||| exists|i: int|
                0 <= i < folds@.len() && ((#[trigger] folds@[i]).queries == 0 || folds@[i].pairs
                    == 0)
        },
{
}

/// Better figures never lose a pass: with each figure a number and none lower, what passed
/// passes.
pub proof fn law_better_figures_still_pass(
    folds: Vec<FoldCounts>,
    figures: HoldoutFigures,
    better: HoldoutFigures,
    r: bool,
    s: bool,
)
    requires
        call_ensures(holdout_gate, (&folds, &figures), r),
        call_ensures(holdout_gate, (&folds, &better), s),
        is_at_least(better.learned_ndcg, figures.learned_ndcg->0.key),
        is_at_least(better.pair_accuracy, figures.pair_accuracy->0.key),
        is_at_least(better.lift_over_current_rule, figures.lift_over_current_rule->0.key),
        is_at_least(better.lift_over_ccu, figures.lift_over_ccu->0.key),
        is_at_least(better.lift_over_reviews, figures.lift_over_reviews->0.key),
    ensures
        r ==> s,
{
}

/// The weights may be frozen only where both holdouts passed and every section had pairs, and
/// always then.
pub proof fn law_freezing_needs_both_holdouts(
    section_pairs: Vec<usize>,
    persona_passed: bool,
    game_passed: bool,
    r: bool,
)
    requires
        call_ensures(freeze_eligible, (&section_pairs, persona_passed, game_passed), r),
    ensures
        !persona_passed ==> !r,
        !game_passed ==> !r,
        section_pairs@.contains(0) ==> !r,
        persona_passed && game_passed && !section_pairs@.contains(0) ==> r,
{
    if section_pairs@.contains(0) {
        let k = choose|k: int| 0 <= k < section_pairs@.len() && section_pairs@[k] == 0;
        assert(section_pairs@[k] == 0);
    }
}

// ---------------------------------------------------------------------------
// Folds
// ---------------------------------------------------------------------------

proof fn lemma_members(folds: Seq<usize>, fold: usize, inside: bool, n: int)
    requires
        0 <= n <= folds.len() <= usize::MAX,
    ensures
        forall|i: int|
            0 <= i < n ==> (fold_members(folds, fold, inside, n).contains(#[trigger] (i as usize))
                <==> (folds[i] == fold) == inside),
        forall|k: int|
            0 <= k < fold_members(folds, fold, inside, n).len() ==> (#[trigger] fold_members(
                folds,
                fold,
                inside,
                n,
            )[k]) < n,
        forall|j: int, k: int|
            0 <= j < k < fold_members(folds, fold, inside, n).len() ==> (
            #[trigger] fold_members(folds, fold, inside, n)[j]) < (
            #[trigger] fold_members(folds, fold, inside, n)[k]),
    decreases n,
{
    if n > 0 {
        lemma_members(folds, fold, inside, n - 1);
        let front = fold_members(folds, fold, inside, n - 1);
        let all = fold_members(folds, fold, inside, n);
        assert forall|i: int| 0 <= i < n implies (all.contains(#[trigger] (i as usize)) <==> (
        folds[i] == fold) == inside) by {
            if front.contains(i as usize) {
                let k = choose|k: int| 0 <= k < front.len() && front[k] == i as usize;
                assert(all[k] == i as usize);
            }
            if i == n - 1 && (folds[i] == fold) == inside {
                assert(all[all.len() - 1] == i as usize);
            }
            if all.contains(i as usize) && i < n - 1 {
                let k = choose|k: int| 0 <= k < all.len() && all[k] == i as usize;
                assert(front[k] == i as usize);
            }
        }
    }
}

/// Every label is either trained on or held out: held out exactly where its fold is the one in
/// turn; both lists keep the order of the labels.
pub proof fn law_folds_separate_training_from_test(
    folds: Vec<usize>,
    fold: usize,
    r: (Vec<usize>, Vec<usize>),
    i: int,
)
    requires
        call_ensures(split_fold, (&folds, fold), r),
        0 <= i < folds@.len() <= usize::MAX,
    ensures
        r.1@.contains(i as usize) <==> folds@[i] == fold,
        r.0@.contains(i as usize) <==> folds@[i] != fold,
        forall|j: int, k: int|
            0 <= j < k < r.0@.len() ==> (#[trigger] r.0@[j]) < (#[trigger] r.0@[k]),
        forall|j: int, k: int|
            0 <= j < k < r.1@.len() ==> (#[trigger] r.1@[j]) < (#[trigger] r.1@[k]),
{
    lemma_members(folds@, fold, true, folds@.len() as int);
    lemma_members(folds@, fold, false, folds@.len() as int);
    let x = i as usize;
    assert(r.1@.contains(x) <==> (folds@[i] == fold) == true);
    assert(r.0@.contains(x) <==> (folds@[i] == fold) == false);
}

proof fn lemma_of_section(
    labels: Seq<GoldenLabel>,
    members: Seq<usize>,
    section: FeedSection,
    m: usize,
)
    ensures
        of_section(labels, members, section).contains(m) <==> members.contains(m)
            && labels[m as int].section == section,
        of_section(labels, members, section).len() <= members.len(),
    decreases members.len(),
{
    if members.len() > 0 {
        let front = members.drop_last();
        lemma_of_section(labels, front, section, m);
        let kept = of_section(labels, front, section);
        let all = of_section(labels, members, section);
        assert(members =~= front.push(members.last()));
        if labels[members.last() as int].section == section {
            assert(all =~= kept.push(members.last()));
            if all.contains(m) {
                let k = choose|k: int| 0 <= k < all.len() && all[k] == m;
                if k < kept.len() {
                    assert(kept[k] == m);
                    let j = choose|j: int| 0 <= j < front.len() && front[j] == m;
                    assert(members[j] == m);
                } else {
                    assert(members[members.len() - 1] == m);
                }
            }
        }
        if members.contains(m) && labels[m as int].section == section {
            let k = choose|k: int| 0 <= k < members.len() && members[k] == m;
            if k < front.len() {
                assert(front[k] == m);
                let j = choose|j: int| 0 <= j < kept.len() && kept[j] == m;
                assert(all[j] == m);
            } else {
                assert(all[all.len() - 1] == m);
            }
        }
        if kept.contains(m) {
            let j = choose|j: int| 0 <= j < front.len() && front[j] == m;
            assert(members[j] == m);
        }
    }
}

/// A section is trained on the labels of that section among those given, and on all of them.
pub proof fn law_sections_keep_their_labels(
    labels: Vec<GoldenLabel>,
    members: Vec<usize>,
    section: FeedSection,
    r: Vec<usize>,
    m: usize,
)
    requires
        call_ensures(section_members, (&labels, &members, section), r),
    ensures
        r@.contains(m) <==> members@.contains(m) && labels@[m as int].section == section,
{
    lemma_of_section(labels@, members@, section, m);
}

/// All labels of one persona, or of one game, are in one of five folds.
pub proof fn law_entities_stay_in_one_fold(
    labels: Vec<GoldenLabel>,
    holdout: Holdout,
    r: Vec<usize>,
    i: int,
    j: int,
)
    requires
        call_ensures(fold_assignments, (&labels, holdout), r),
        0 <= i < labels@.len(),
        0 <= j < labels@.len(),
    ensures
        r@.len() == labels@.len(),
        r@[i] < 5,
        holdout is Persona && labels@[i].persona_id@ == labels@[j].persona_id@ ==> r@[i] == r@[j],
        holdout is Game && labels@[i].app_id == labels@[j].app_id ==> r@[i] == r@[j],
{
}

/// The two strategies go by their names.
pub proof fn law_strategies_have_names(holdout: Holdout, r: &'static str)
    requires
        call_ensures(Holdout::strategy, (holdout,), r),
    ensures
        holdout is Persona ==> r@ == "persona_holdout"@,
        holdout is Game ==> r@ == "game_holdout"@,
{
}

/// The weights of each rule: the gains add up to ten thousand, personal fit weighs most and the
/// same everywhere, and the risk is taken off. Activity and quality count only for games that
/// are out, a demo and the release date only for those that are not.
pub proof fn law_rules_weigh_what_a_section_knows(section: FeedSection, r: [i32; 11])
    requires
        call_ensures(current_rule_weights, (section,), r),
    ensures
        r@[0] == 4_500,
        r@[10] == -1_100,
        r@[0] + r@[1] + r@[2] + r@[3] + r@[4] + r@[5] + r@[6] + r@[7] + r@[8] + r@[9] == 10_000,
        section is Upcoming ==> r@[1] == 0 && r@[2] == 0 && r@[3] == 0 && r@[4] == 1_375 && r@[5]
            == 1_925 && r@[6] == 1_100 && r@[7] == 1_100 && r@[8] == 0 && r@[9] == 0,
        !(section is Upcoming) ==> r@[1] > 0 && r@[2] > 0 && r@[5] == 0 && r@[6] == 0 && r@[7]
            == 0,
        section is RecentRelease ==> r@[1] == 2_200 && r@[2] == 1_100 && r@[3] == 825 && r@[4]
            == 1_375,
        section is PopularLegacy ==> r@[1] == 1_650 && r@[2] == 2_200 && r@[3] == 1_100 && r@[4]
            == 0 && r@[8] == 0 && r@[9] == 550,
        section is ClassicLegacy ==> r@[1] == 2_475 && r@[2] == 825 && r@[3] == 0 && r@[4] == 0
            && r@[8] == 1_375 && r@[9] == 825,
{
    assert(forall|i: int|
        0 <= i < 11 ==> #[trigger] r@[i] == crate::dbtool::gate::rule_weights(section)[i]);
}

// ---------------------------------------------------------------------------
// Labels
// ---------------------------------------------------------------------------

/// A number between zero and one, where zero may carry either sign.
pub open spec fn in_unit(score: Score) -> bool {
    -1 <= score.key <= 0x3ff0_0000_0000_0000
}

pub open spec fn is_clean_label(label: GoldenLabel) -> bool {
    &&& crate::text::trimmed(label.persona_id@).len() > 0
    &&& label.app_id != 0
    &&& label.relevance <= 3
    &&& in_unit(label.personal_fit)
    &&& in_unit(label.quality)
    &&& in_unit(label.activity)
    &&& in_unit(label.momentum)
    &&& in_unit(label.freshness)
    &&& in_unit(label.demo)
    &&& in_unit(label.date_confidence)
    &&& in_unit(label.studio_prior)
    &&& in_unit(label.longevity)
    &&& in_unit(label.maintenance)
    &&& in_unit(label.risk)
    &&& in_unit(label.ccu_baseline)
    &&& in_unit(label.review_baseline)
}

/// Two labels judge the same thing.
pub open spec fn judge_alike(a: GoldenLabel, b: GoldenLabel) -> bool {
    a.persona_id@ == b.persona_id@ && a.app_id == b.app_id && a.section == b.section
}

proof fn lemma_clean_fields(label: GoldenLabel)
    ensures
        crate::dbtool::golden::bad_field(label, 0) is None <==> (in_unit(label.personal_fit)
            && in_unit(label.quality) && in_unit(label.activity) && in_unit(label.momentum)
            && in_unit(label.freshness) && in_unit(label.demo) && in_unit(label.date_confidence)
            && in_unit(label.studio_prior) && in_unit(label.longevity) && in_unit(
            label.maintenance,
        ) && in_unit(label.risk) && in_unit(label.ccu_baseline) && in_unit(
            label.review_baseline,
        )),
{
    reveal_with_fuel(crate::dbtool::golden::bad_field, 14);
}

proof fn lemma_labels_clean(labels: Seq<GoldenLabel>)
    ensures
        crate::dbtool::golden::labels_fault(labels) is None <==> (forall|i: int|
            0 <= i < labels.len() ==> is_clean_label(#[trigger] labels[i])) && (forall|
            i: int,
            j: int,
        |
            0 <= i < j < labels.len() ==> !judge_alike(#[trigger] labels[i], #[trigger] labels[j])),
    decreases labels.len(),
{
    if labels.len() > 0 {
        let front = labels.drop_last();
        let last = labels.last();
        lemma_labels_clean(front);
        lemma_clean_fields(last);
        assert(forall|i: int| 0 <= i < front.len() ==> front[i] == labels[i]);
        let clean = forall|i: int| 0 <= i < labels.len() ==> is_clean_label(#[trigger] labels[i]);
        let apart = forall|i: int, j: int|
            0 <= i < j < labels.len() ==> !judge_alike(#[trigger] labels[i], #[trigger] labels[j]);
        if crate::dbtool::golden::labels_fault(labels) is None {
            assert(clean) by {
                assert forall|i: int| 0 <= i < labels.len() implies is_clean_label(
                    #[trigger] labels[i],
                ) by {
                    if i < front.len() {
                        assert(is_clean_label(front[i]));
                    }
                }
            }
            assert forall|i: int, j: int| 0 <= i < j < labels.len() implies !judge_alike(
                #[trigger] labels[i],
                #[trigger] labels[j],
            ) by {
                assert(labels[i] == front[i]);
                if j < front.len() {
                    assert(labels[j] == front[j]);
                } else {
                    assert(!crate::dbtool::golden::same_judgment(front[i], last));
                }
            }
        }
        if clean && apart {
            assert(is_clean_label(labels[labels.len() - 1]));
            assert forall|i: int| 0 <= i < front.len() implies is_clean_label(
                #[trigger] front[i],
            ) by {
                assert(is_clean_label(labels[i]));
            }
            assert forall|i: int, j: int| 0 <= i < j < front.len() implies !judge_alike(
                #[trigger] front[i],
                #[trigger] front[j],
            ) by {
                assert(!judge_alike(labels[i], labels[j]));
            }
            assert forall|j: int| 0 <= j < front.len() implies !(
            crate::dbtool::golden::same_judgment(#[trigger] front[j], last)) by {
                assert(!judge_alike(labels[j], labels[labels.len() - 1]));
            }
        }
    }
}

proof fn lemma_distinct_counts(texts: Seq<Seq<char>>)
    ensures
        distinct(texts).len() == texts.to_set().len(),
        distinct(texts).to_set() == texts.to_set(),
        distinct(texts).no_duplicates(),
    decreases texts.len(),
{
    if texts.len() == 0 {
        assert(texts.to_set() =~= Set::<Seq<char>>::empty());
        assert(distinct(texts).to_set() =~= Set::<Seq<char>>::empty());
    } else {
        let front = texts.drop_last();
        let last = texts.last();
        lemma_distinct_counts(front);
        vstd::seq_lib::seq_to_set_is_finite(front);
        assert(texts =~= front.push(last));
        assert(texts.to_set() =~= front.to_set().insert(last)) by {
            assert forall|t: Seq<char>| texts.to_set().contains(t) <==> front.to_set().insert(
                last,
            ).contains(t) by {
                if front.to_set().contains(t) {
                    let k = choose|k: int| 0 <= k < front.len() && front[k] == t;
                    assert(texts[k] == t);
                }
                if t == last {
                    assert(texts[texts.len() - 1] == t);
                }
            }
        }
        let kept = distinct(front);
        assert(kept.contains(last) == kept.to_set().contains(last));
        if !kept.contains(last) {
            assert(distinct(texts) =~= kept.push(last));
            assert(distinct(texts).to_set() =~= kept.to_set().insert(last)) by {
                assert forall|t: Seq<char>| distinct(texts).to_set().contains(t)
                    <==> kept.to_set().insert(last).contains(t) by {
                    if kept.to_set().contains(t) {
                        let k = choose|k: int| 0 <= k < kept.len() && kept[k] == t;
                        assert(distinct(texts)[k] == t);
                    }
                    if t == last {
                        assert(distinct(texts)[kept.len() as int] == t);
                    }
                }
            }
        } else {
            assert(front.to_set().insert(last) =~= front.to_set());
        }
    }
}

/// A dataset is accepted exactly where it is of the first version, every label is clean and
/// judges something of its own, there are enough labels, and at least five personas and five
/// games occur.
pub proof fn law_dataset_is_accepted_when_clean(
    dataset: GoldenDataset,
    minimum_labels: usize,
    r: Result<(), String>,
)
    requires
        call_ensures(validate_dataset, (&dataset, minimum_labels), r),
    ensures
        ({
            let labels = dataset.labels@;
            r is Ok <==> {
                &&& dataset.schema_version@ == "recommendation_golden_labels_v1"@
                &&& forall|i: int| 0 <= i < labels.len() ==> is_clean_label(#[trigger] labels[i])
                &&& forall|i: int, j: int|
                    0 <= i < j < labels.len() ==> !judge_alike(
                        #[trigger] labels[i],
                        #[trigger] labels[j],
                    )
                &&& labels.len() >= minimum_labels
                &&& labels.map_values(|label: GoldenLabel| label.persona_id@).to_set().len() >= 5
                &&& labels.map_values(
                    |label: GoldenLabel| crate::numbers::decimal(label.app_id as nat),
                ).to_set().len() >= 5
            }
        }),
{
    let labels = dataset.labels@;
    lemma_labels_clean(labels);
    lemma_distinct_counts(crate::dbtool::golden::personas_of(labels));
    lemma_distinct_counts(crate::dbtool::golden::games_of(labels));
    assert(labels.map_values(|label: GoldenLabel| label.persona_id@)
        =~= crate::dbtool::golden::personas_of(labels));
    assert(labels.map_values(|label: GoldenLabel| crate::numbers::decimal(label.app_id as nat))
        =~= crate::dbtool::golden::games_of(labels));
}

// ---------------------------------------------------------------------------
// Pairs
// ---------------------------------------------------------------------------

/// The pair is one to learn from: one persona finds the first more relevant than the second.
pub open spec fn prefers(labels: Seq<GoldenLabel>, better: usize, worse: usize) -> bool {
    &&& better < labels.len()
    &&& worse < labels.len()
    &&& labels[better as int].persona_id@ == labels[worse as int].persona_id@
    &&& labels[better as int].relevance > labels[worse as int].relevance
}

proof fn lemma_row_pairs(
    labels: Seq<GoldenLabel>,
    order: Seq<usize>,
    left: int,
    upto: int,
)
    requires
        0 <= left < order.len(),
        upto <= order.len(),
        forall|i: int| 0 <= i < order.len() ==> (#[trigger] order[i]) < labels.len(),
    ensures
        forall|k: int|
            0 <= k < row_preferences(labels, order, left, upto).len() ==> {
                let p = #[trigger] row_preferences(labels, order, left, upto)[k];
                prefers(labels, p.0, p.1) && order.contains(p.0) && order.contains(p.1)
            },
        forall|j: int|
            left < j < upto && prefers(labels, order[left], #[trigger] order[j])
                ==> row_preferences(labels, order, left, upto).contains((order[left], order[j])),
        forall|j: int|
            left < j < upto && prefers(labels, #[trigger] order[j], order[left])
                ==> row_preferences(labels, order, left, upto).contains((order[j], order[left])),
    decreases upto - left,
{
    if upto > left + 1 {
        lemma_row_pairs(labels, order, left, upto - 1);
        let front = row_preferences(labels, order, left, upto - 1);
        let all = row_preferences(labels, order, left, upto);
        assert(order.contains(order[left]));
        assert(order.contains(order[upto - 1]));
        assert forall|p: (usize, usize)| front.contains(p) implies #[trigger] all.contains(p) by {
            let k = choose|k: int| 0 <= k < front.len() && front[k] == p;
            assert(all[k] == p);
        }
        assert forall|k: int| 0 <= k < all.len() implies {
            let p = #[trigger] all[k];
            prefers(labels, p.0, p.1) && order.contains(p.0) && order.contains(p.1)
        } by {
            if k < front.len() {
                assert(all[k] == front[k]);
            }
        }
        if prefers(labels, order[left], order[upto - 1]) {
            assert(all[all.len() - 1] == (order[left], order[upto - 1]));
        }
        if prefers(labels, order[upto - 1], order[left]) {
            assert(all[all.len() - 1] == (order[upto - 1], order[left]));
        }
    }
}

proof fn lemma_pairs(labels: Seq<GoldenLabel>, order: Seq<usize>, n: int)
    requires
        0 <= n <= order.len(),
        forall|i: int| 0 <= i < order.len() ==> (#[trigger] order[i]) < labels.len(),
    ensures
        forall|k: int|
            0 <= k < preferences(labels, order, n).len() ==> {
                let p = #[trigger] preferences(labels, order, n)[k];
                prefers(labels, p.0, p.1) && order.contains(p.0) && order.contains(p.1)
            },
        forall|i: int, j: int|
            #![trigger order[i], order[j]]
            0 <= i < n && i < j < order.len() && prefers(labels, order[i], order[j])
                ==> preferences(labels, order, n).contains((order[i], order[j])),
        forall|i: int, j: int|
            #![trigger order[i], order[j]]
            0 <= i < n && i < j < order.len() && prefers(labels, order[j], order[i])
                ==> preferences(labels, order, n).contains((order[j], order[i])),
    decreases n,
{
    if n > 0 {
        lemma_pairs(labels, order, n - 1);
        lemma_row_pairs(labels, order, n - 1, order.len() as int);
        let front = preferences(labels, order, n - 1);
        let row = row_preferences(labels, order, n - 1, order.len() as int);
        let all = preferences(labels, order, n);
        assert(all =~= front + row);
        assert forall|p: (usize, usize)| front.contains(p) implies #[trigger] all.contains(p) by {
            let k = choose|k: int| 0 <= k < front.len() && front[k] == p;
            assert(all[k] == p);
        }
        assert forall|p: (usize, usize)| row.contains(p) implies #[trigger] all.contains(p) by {
            let k = choose|k: int| 0 <= k < row.len() && row[k] == p;
            assert(all[front.len() + k] == p);
        }
        assert forall|k: int| 0 <= k < all.len() implies {
            let p = #[trigger] all[k];
            prefers(labels, p.0, p.1) && order.contains(p.0) && order.contains(p.1)
        } by {
            if k < front.len() {
                assert(all[k] == front[k]);
            } else {
                assert(all[k] == row[k - front.len()]);
            }
        }
    }
}

/// What is learned from are exactly the pairs of given labels of which one persona finds the
/// first more relevant.
pub proof fn law_pairs_are_the_preferences(
    labels: Vec<GoldenLabel>,
    members: Vec<usize>,
    r: Vec<(usize, usize)>,
    better: usize,
    worse: usize,
)
    requires
        forall|i: int| 0 <= i < members@.len() ==> (#[trigger] members@[i]) < labels@.len(),
        call_ensures(build_pairs, (&labels, members), r),
    ensures
        r@.contains((better, worse)) <==> members@.contains(better) && members@.contains(worse)
            && prefers(labels@, better, worse),
{
    let by = PersonaGameOrder { labels: &labels };
    let order = stable_sorted(members@, &by);
    crate::sort::lemma_sorted_members(members@, &by);
    crate::sort::lemma_sorted_rearranges(members@, &by);
    assert(order.to_multiset() == members@.to_multiset());
    assert forall|m: usize| order.contains(m) <==> #[trigger] members@.contains(m) by {
        order.to_multiset_ensures();
        members@.to_multiset_ensures();
        assert(order.contains(m) <==> order.to_multiset().count(m) > 0);
        assert(members@.contains(m) <==> members@.to_multiset().count(m) > 0);
    }
    assert forall|i: int| 0 <= i < order.len() implies (#[trigger] order[i]) < labels@.len() by {
        assert(order.contains(order[i]));
        assert(members@.contains(order[i]));
    }
    lemma_pairs(labels@, order, order.len() as int);
    if r@.contains((better, worse)) {
        let k = choose|k: int| 0 <= k < r@.len() && r@[k] == (better, worse);
    }
    if members@.contains(better) && members@.contains(worse) && prefers(labels@, better, worse) {
        assert(order.contains(better) && order.contains(worse));
        let i = choose|i: int| 0 <= i < order.len() && order[i] == better;
        let j = choose|j: int| 0 <= j < order.len() && order[j] == worse;
        if i < j {
            assert(order[i] == better && order[j] == worse);
        } else {
            assert(order[j] == worse && order[i] == better);
        }
    }
}

// ---------------------------------------------------------------------------
// Pair accuracy
// ---------------------------------------------------------------------------

/// One persona judged the two in one section, and differently.
pub open spec fn judged_apart(a: GoldenLabel, b: GoldenLabel) -> bool {
    a.persona_id@ == b.persona_id@ && a.section == b.section && a.relevance != b.relevance
}

proof fn lemma_row_of(labels: Seq<GoldenLabel>, scores: Seq<Score>, i: int, upto: int, way: int)
    requires
        0 <= i < labels.len() == scores.len(),
        upto <= labels.len(),
        forall|j: int|
            i < j < upto && judged_apart(labels[i], #[trigger] labels[j]) ==> way_of(
                labels,
                scores,
                i,
                j,
            ) == way,
        way == 0 || way == 1 || way == 2,
    ensures
        row_totals(labels, scores, i, upto).1 == way * row_totals(labels, scores, i, upto).0,
        row_ties(labels, scores, i, upto) == if way == 1 {
            row_totals(labels, scores, i, upto).0
        } else {
            0
        },
    decreases upto - i,
{
    if upto > i + 1 {
        lemma_row_of(labels, scores, i, upto - 1, way);
        assert(judged_apart(labels[i], labels[upto - 1]) ==> way_of(labels, scores, i, upto - 1)
            == way);
    }
}

/// How the scores order the pair: as the judgments do (2), the other way (0), or not at all (1).
pub open spec fn way_of(labels: Seq<GoldenLabel>, scores: Seq<Score>, i: int, j: int) -> int {
    if scores[i].key == scores[j].key {
        1
    } else if labels[i].relevance > labels[j].relevance {
        if scores[i].key > scores[j].key {
            2
        } else {
            0
        }
    } else {
        if scores[i].key < scores[j].key {
            2
        } else {
            0
        }
    }
}

proof fn lemma_all_of(labels: Seq<GoldenLabel>, scores: Seq<Score>, n: int, way: int)
    requires
        0 <= n <= labels.len() == scores.len(),
        forall|i: int, j: int|
            0 <= i < j < labels.len() && judged_apart(#[trigger] labels[i], #[trigger] labels[j])
                ==> way_of(labels, scores, i, j) == way,
        way == 0 || way == 1 || way == 2,
    ensures
        pair_totals(labels, scores, n).1 == way * pair_totals(labels, scores, n).0,
        tie_totals(labels, scores, n) == if way == 1 {
            pair_totals(labels, scores, n).0
        } else {
            0
        },
    decreases n,
{
    if n > 0 {
        lemma_all_of(labels, scores, n - 1, way);
        assert forall|j: int|
            n - 1 < j < labels.len() && judged_apart(labels[n - 1], #[trigger] labels[j]) implies
            way_of(labels, scores, n - 1, j) == way by {
            assert(judged_apart(labels[n - 1], labels[j]));
        }
        lemma_row_of(labels, scores, n - 1, labels.len() as int, way);
        let a = pair_totals(labels, scores, n - 1).0;
        let b = row_totals(labels, scores, n - 1, labels.len() as int).0;
        assert(way * (a + b) == way * a + way * b) by (nonlinear_arith);
    }
}

/// Scores that order every pair as the judgments do get every pair right; scores that order
/// every one the other way get none right and none tied; equal scores tie on every pair.
pub proof fn law_accuracy_follows_the_order(
    labels: Vec<GoldenLabel>,
    scores: Vec<Score>,
    r: PairCounts,
    way: int,
)
    requires
        scores@.len() == labels@.len(),
        call_ensures(count_pairs, (&labels, &scores), r),
        forall|i: int, j: int|
            0 <= i < j < labels@.len() && judged_apart(
                #[trigger] labels@[i],
                #[trigger] labels@[j],
            ) ==> way_of(labels@, scores@, i, j) == way,
        way == 0 || way == 1 || way == 2,
    ensures
        way == 2 ==> r.correct == r.pairs && r.tied == 0,
        way == 0 ==> r.correct == 0 && r.tied == 0,
        way == 1 ==> r.correct == 0 && r.tied == r.pairs,
{
    lemma_all_of(labels@, scores@, labels@.len() as int, way);
}

proof fn lemma_row_counts(labels: Seq<GoldenLabel>, scores: Seq<Score>, i: int, upto: int, j: int)
    requires
        0 <= i < j < upto <= labels.len(),
        judged_apart(labels[i], labels[j]),
    ensures
        row_totals(labels, scores, i, upto).0 > 0,
    decreases upto,
{
    if j < upto - 1 {
        lemma_row_counts(labels, scores, i, upto - 1, j);
    }
}

proof fn lemma_some_pair(labels: Seq<GoldenLabel>, scores: Seq<Score>, n: int, i: int, j: int)
    requires
        0 <= i < n <= labels.len(),
        i < j < labels.len(),
        judged_apart(labels[i], labels[j]),
    ensures
        pair_totals(labels, scores, n).0 > 0,
    decreases n,
{
    if i < n - 1 {
        lemma_some_pair(labels, scores, n - 1, i, j);
    } else {
        lemma_row_counts(labels, scores, i, labels.len() as int, j);
    }
}

/// Two labels of one persona in one section that differ in relevance are a pair.
pub proof fn law_differing_judgments_are_counted(
    labels: Vec<GoldenLabel>,
    scores: Vec<Score>,
    r: PairCounts,
    i: int,
    j: int,
)
    requires
        scores@.len() == labels@.len(),
        call_ensures(count_pairs, (&labels, &scores), r),
        0 <= i < j < labels@.len(),
        judged_apart(labels@[i], labels@[j]),
    ensures
        r.pairs > 0,
{
    lemma_some_pair(labels@, scores@, labels@.len() as int, i, j);
}

// ---------------------------------------------------------------------------
// Queries
// ---------------------------------------------------------------------------

/// A query that can be judged: the best order starts with something relevant and never rises,
/// and the groups of equal scores lie one behind the other from the top on.
pub open spec fn is_judged_query(q: QueryView) -> bool {
    &&& 2 <= q.ideal.len() <= 20
    &&& q.ideal[0] > 0
    &&& forall|i: int, j: int| 0 <= i < j < q.ideal.len() ==> q.ideal[i] >= q.ideal[j]
    &&& q.groups.len() > 0
    &&& q.groups[0].start == 0
    &&& groups_follow(q.groups)
}

pub open spec fn groups_follow(groups: Seq<TieGroup>) -> bool {
    &&& forall|k: int|
        0 <= k < groups.len() ==> (#[trigger] groups[k]).start < groups[k].end && groups[k].start
            < 20
    &&& forall|j: int, k: int|
        0 <= j < groups.len() && k == j + 1 && k < groups.len() ==> (#[trigger] groups[j]).end == (
        #[trigger] groups[k]).start
}

proof fn lemma_groups(ranked: Seq<(u8, Score)>, start: int)
    requires
        0 <= start <= ranked.len() <= usize::MAX,
    ensures
        groups_follow(tie_groups(ranked, start)),
        start < ranked.len() && start < 20 ==> tie_groups(ranked, start).len() > 0
            && tie_groups(ranked, start)[0].start == start,
        tie_groups(ranked, start).len() > 0 ==> tie_groups(ranked, start)[0].start == start,
    decreases ranked.len() - start,
{
    if start < ranked.len() && start < 20 {
        crate::dbtool::queries::lemma_tie_end(ranked, start, start + 1);
        let end = crate::dbtool::queries::tie_end(ranked, start, start + 1);
        lemma_groups(ranked, end);
        let rest = tie_groups(ranked, end);
        let all = tie_groups(ranked, start);
        assert(all[0].start == start && all[0].end == end);
        assert forall|k: int| 0 <= k < all.len() implies (#[trigger] all[k]).start < all[k].end
            && all[k].start < 20 by {
            if k > 0 {
                assert(all[k] == rest[k - 1]);
            }
        }
        assert forall|j: int, k: int|
            0 <= j < all.len() && k == j + 1 && k < all.len() implies (#[trigger] all[j]).end == (
        #[trigger] all[k]).start by {
            assert(all[k] == rest[k - 1]);
            if j > 0 {
                assert(all[j] == rest[j - 1]);
            }
        }
    }
}

proof fn lemma_query(labels: &Vec<GoldenLabel>, scores: &Vec<Score>, members: Seq<usize>)
    requires
        scores@.len() == labels@.len(),
        members.len() <= usize::MAX,
        forall|i: int| 0 <= i < members.len() ==> (#[trigger] members[i]) < labels@.len(),
    ensures
        query_view(labels, scores, members) matches Some(q) ==> is_judged_query(q),
{
    let by = IdealOrder { labels };
    let best = stable_sorted(members, &by);
    crate::sort::lemma_sorted_in_order(members, &by);
    crate::sort::lemma_sorted_rearranges(members, &by);
    best.to_multiset_ensures();
    members.to_multiset_ensures();
    assert(best.len() == members.len());
    let predicted = PredictedOrder { labels, scores };
    let order = stable_sorted(members, &predicted);
    crate::sort::lemma_sorted_rearranges(members, &predicted);
    order.to_multiset_ensures();
    assert(order.len() == members.len());
    let ranked = crate::dbtool::queries::rated(labels@, scores@, order);
    assert(ranked.len() == members.len());
    lemma_groups(ranked, 0);
}

proof fn lemma_queries(
    labels: &Vec<GoldenLabel>,
    scores: &Vec<Score>,
    order: Seq<usize>,
    start: int,
)
    requires
        scores@.len() == labels@.len(),
        0 <= start <= order.len() <= usize::MAX,
        forall|i: int| 0 <= i < order.len() ==> (#[trigger] order[i]) < labels@.len(),
    ensures
        forall|k: int|
            0 <= k < query_views(labels, scores, order, start).len() ==> is_judged_query(
                #[trigger] query_views(labels, scores, order, start)[k],
            ),
    decreases order.len() - start,
{
    if start < order.len() {
        crate::dbtool::queries::lemma_query_end(labels@, order, start, start + 1);
        let end = crate::dbtool::queries::query_end(labels@, order, start, start + 1);
        lemma_queries(labels, scores, order, end);
        let members = order.subrange(start, end);
        lemma_query(labels, scores, members);
        let rest = query_views(labels, scores, order, end);
        let all = query_views(labels, scores, order, start);
        assert forall|k: int| 0 <= k < all.len() implies is_judged_query(#[trigger] all[k]) by {
            if query_view(labels, scores, members) is Some {
                if k > 0 {
                    assert(all[k] == rest[k - 1]);
                }
            }
        }
    }
}

/// Every query that is judged has something relevant, an ideal order of at most twenty that never
/// rises, and groups of equal scores one behind the other.
pub proof fn law_queries_can_be_judged(
    labels: Vec<GoldenLabel>,
    scores: Vec<Score>,
    r: Vec<RankedQuery>,
    k: int,
)
    requires
        scores@.len() == labels@.len(),
        labels@.len() * 7 <= u64::MAX,
        labels@.len() <= usize::MAX,
        forall|i: int| 0 <= i < labels@.len() ==> (#[trigger] labels@[i]).relevance <= 3,
        call_ensures(rank_queries, (&labels, &scores), r),
        0 <= k < r@.len(),
    ensures
        is_judged_query((QueryView { groups: r@[k].groups@, ideal: r@[k].ideal@ })),
{
    let by = QueryOrder { labels: &labels };
    let places = crate::dbtool::metrics::positions(labels@.len());
    let order = stable_sorted(places, &by);
    assert forall|i: int| 0 <= i < places.len() implies by.orders(#[trigger] places[i]) by {}
    crate::sort::lemma_sorted_in_order(places, &by);
    crate::sort::lemma_sorted_rearranges(places, &by);
    order.to_multiset_ensures();
    places.to_multiset_ensures();
    assert(order.len() == places.len());
    assert forall|i: int| 0 <= i < order.len() implies (#[trigger] order[i]) < labels@.len() by {
        assert(by.orders(order[i]));
    }
    lemma_queries(&labels, &scores, order, 0);
    let all = query_views(&labels, &scores, order, 0);
    assert(crate::dbtool::queries::views_of(r@).len() == r@.len());
    assert(crate::dbtool::queries::views_of(r@)[k] == all[k]);
}

/// What a relevance is worth: nothing, one, three or seven.
pub open spec fn worth_of(relevance: u8) -> int {
    if relevance == 0 {
        0
    } else if relevance == 1 {
        1
    } else if relevance == 2 {
        3
    } else {
        7
    }
}

proof fn lemma_gain(ranked: Seq<(u8, Score)>, start: int, end: int, relevance: u8)
    requires
        0 <= start <= end <= ranked.len(),
        forall|i: int| 0 <= i < ranked.len() ==> (#[trigger] ranked[i]).0 == relevance,
    ensures
        crate::dbtool::queries::gain_sum(ranked, start, end) == (end - start) * worth_of(
            relevance,
        ),
    decreases end - start,
{
    if end > start {
        lemma_gain(ranked, start, end - 1, relevance);
        let w = worth_of(relevance);
        assert((end - start) * w == (end - 1 - start) * w + w) by (nonlinear_arith);
    } else {
        let w = worth_of(relevance);
        assert((end - start) * w == 0) by (nonlinear_arith)
            requires
                end == start,
        ;
    }
}

proof fn lemma_groups_gain(ranked: Seq<(u8, Score)>, start: int, relevance: u8)
    requires
        0 <= start <= ranked.len() <= usize::MAX,
        ranked.len() * 7 <= u64::MAX,
        relevance <= 3,
        forall|i: int| 0 <= i < ranked.len() ==> (#[trigger] ranked[i]).0 == relevance,
    ensures
        forall|k: int|
            0 <= k < tie_groups(ranked, start).len() ==> (#[trigger] tie_groups(
                ranked,
                start,
            )[k]).gain == (tie_groups(ranked, start)[k].end - tie_groups(ranked, start)[k].start)
                * worth_of(relevance),
    decreases ranked.len() - start,
{
    if start < ranked.len() && start < 20 {
        crate::dbtool::queries::lemma_tie_end(ranked, start, start + 1);
        let end = crate::dbtool::queries::tie_end(ranked, start, start + 1);
        lemma_groups_gain(ranked, end, relevance);
        lemma_gain(ranked, start, end, relevance);
        let w = worth_of(relevance);
        assert(0 <= (end - start) * w <= ranked.len() * 7) by (nonlinear_arith)
            requires
                0 <= end - start <= ranked.len(),
                0 <= w <= 7,
        ;
        let rest = tie_groups(ranked, end);
        let all = tie_groups(ranked, start);
        assert forall|k: int| 0 <= k < all.len() implies (#[trigger] all[k]).gain == (all[k].end
            - all[k].start) * w by {
            if k > 0 {
                assert(all[k] == rest[k - 1]);
            }
        }
    }
}

proof fn lemma_query_gain(
    labels: &Vec<GoldenLabel>,
    scores: &Vec<Score>,
    members: Seq<usize>,
    relevance: u8,
)
    requires
        scores@.len() == labels@.len(),
        members.len() <= usize::MAX,
        members.len() * 7 <= u64::MAX,
        relevance <= 3,
        forall|i: int| 0 <= i < members.len() ==> (#[trigger] members[i]) < labels@.len(),
        forall|i: int| 0 <= i < labels@.len() ==> (#[trigger] labels@[i]).relevance == relevance,
    ensures
        query_view(labels, scores, members) matches Some(q) ==> worth_so(q, relevance),
{
    let predicted = PredictedOrder { labels, scores };
    let order = stable_sorted(members, &predicted);
    assert forall|i: int| 0 <= i < members.len() implies predicted.orders(
        #[trigger] members[i],
    ) by {}
    crate::sort::lemma_sorted_rearranges(members, &predicted);
    crate::sort::lemma_sorted_in_order(members, &predicted);
    order.to_multiset_ensures();
    members.to_multiset_ensures();
    assert(order.len() == members.len());
    let ranked = crate::dbtool::queries::rated(labels@, scores@, order);
    assert forall|i: int| 0 <= i < ranked.len() implies (#[trigger] ranked[i]).0 == relevance by {
        assert(predicted.orders(order[i]));
        assert(ranked[i].0 == labels@[order[i] as int].relevance);
    }
    lemma_groups_gain(ranked, 0, relevance);
}

pub open spec fn worth_so(q: QueryView, relevance: u8) -> bool {
    forall|k: int|
        0 <= k < q.groups.len() ==> (#[trigger] q.groups[k]).gain == (q.groups[k].end
            - q.groups[k].start) * worth_of(relevance)
}

proof fn lemma_queries_gain(
    labels: &Vec<GoldenLabel>,
    scores: &Vec<Score>,
    order: Seq<usize>,
    start: int,
    relevance: u8,
)
    requires
        scores@.len() == labels@.len(),
        0 <= start <= order.len() <= usize::MAX,
        order.len() * 7 <= u64::MAX,
        relevance <= 3,
        forall|i: int| 0 <= i < order.len() ==> (#[trigger] order[i]) < labels@.len(),
        forall|i: int| 0 <= i < labels@.len() ==> (#[trigger] labels@[i]).relevance == relevance,
    ensures
        forall|k: int|
            0 <= k < query_views(labels, scores, order, start).len() ==> worth_so(
                #[trigger] query_views(labels, scores, order, start)[k],
                relevance,
            ),
    decreases order.len() - start,
{
    if start < order.len() {
        crate::dbtool::queries::lemma_query_end(labels@, order, start, start + 1);
        let end = crate::dbtool::queries::query_end(labels@, order, start, start + 1);
        lemma_queries_gain(labels, scores, order, end, relevance);
        let members = order.subrange(start, end);
        lemma_query_gain(labels, scores, members, relevance);
        let rest = query_views(labels, scores, order, end);
        let all = query_views(labels, scores, order, start);
        assert forall|k: int| 0 <= k < all.len() implies worth_so(#[trigger] all[k], relevance) by {
            if query_view(labels, scores, members) is Some {
                if k > 0 {
                    assert(all[k] == rest[k - 1]);
                }
            }
        }
    }
}

/// Where every label has one relevance, a group gains that relevance's worth for every label in
/// it.
pub proof fn law_groups_gain_their_worth(
    labels: Vec<GoldenLabel>,
    scores: Vec<Score>,
    r: Vec<RankedQuery>,
    relevance: u8,
    k: int,
    g: int,
)
    requires
        scores@.len() == labels@.len(),
        labels@.len() * 7 <= u64::MAX,
        labels@.len() <= usize::MAX,
        relevance <= 3,
        forall|i: int| 0 <= i < labels@.len() ==> (#[trigger] labels@[i]).relevance == relevance,
        call_ensures(rank_queries, (&labels, &scores), r),
        0 <= k < r@.len(),
        0 <= g < r@[k].groups@.len(),
    ensures
        r@[k].groups@[g].gain == (r@[k].groups@[g].end - r@[k].groups@[g].start) * worth_of(
            relevance,
        ),
        relevance > 0,
{
    let by = QueryOrder { labels: &labels };
    let places = crate::dbtool::metrics::positions(labels@.len());
    let order = stable_sorted(places, &by);
    assert forall|i: int| 0 <= i < places.len() implies by.orders(#[trigger] places[i]) by {}
    crate::sort::lemma_sorted_in_order(places, &by);
    crate::sort::lemma_sorted_rearranges(places, &by);
    order.to_multiset_ensures();
    places.to_multiset_ensures();
    assert(order.len() == places.len());
    assert forall|i: int| 0 <= i < order.len() implies (#[trigger] order[i]) < labels@.len() by {
        assert(by.orders(order[i]));
    }
    lemma_queries_gain(&labels, &scores, order, 0, relevance);
    let all = query_views(&labels, &scores, order, 0);
    assert(crate::dbtool::queries::views_of(r@).len() == r@.len());
    assert(crate::dbtool::queries::views_of(r@)[k] == all[k]);
    assert(worth_so(all[k], relevance));
    assert(all[k].groups == r@[k].groups@);
    lemma_queries_relevant(&labels, &scores, order, 0, relevance);
}

proof fn lemma_queries_relevant(
    labels: &Vec<GoldenLabel>,
    scores: &Vec<Score>,
    order: Seq<usize>,
    start: int,
    relevance: u8,
)
    requires
        0 <= start <= order.len(),
        forall|i: int| 0 <= i < order.len() ==> (#[trigger] order[i]) < labels@.len(),
        forall|i: int| 0 <= i < labels@.len() ==> (#[trigger] labels@[i]).relevance == relevance,
    ensures
        query_views(labels, scores, order, start).len() > 0 ==> relevance > 0,
    decreases order.len() - start,
{
    if start < order.len() {
        crate::dbtool::queries::lemma_query_end(labels@, order, start, start + 1);
        let end = crate::dbtool::queries::query_end(labels@, order, start, start + 1);
        lemma_queries_relevant(labels, scores, order, end, relevance);
        let members = order.subrange(start, end);
        let by = IdealOrder { labels };
        let best = stable_sorted(members, &by);
        assert forall|i: int| 0 <= i < members.len() implies by.orders(#[trigger] members[i]) by {}
        crate::sort::lemma_sorted_in_order(members, &by);
        crate::sort::lemma_sorted_rearranges(members, &by);
        best.to_multiset_ensures();
        members.to_multiset_ensures();
        assert(best.len() == members.len());
        if members.len() >= 2 {
            assert(by.orders(best[0]));
            assert(labels@[best[0] as int].relevance == relevance);
        }
    }
}

/// The sections have their numbers.
pub proof fn law_sections_have_numbers(section: FeedSection, r: usize)
    requires
        call_ensures(section_index, (section,), r),
    ensures
        section is RecentRelease <==> r == 0,
        section is Upcoming <==> r == 1,
        section is PopularLegacy <==> r == 2,
        section is ClassicLegacy <==> r == 3,
{
}

} // verus!
