use std::collections::{HashMap, HashSet};

use mpgs::dbtool::folds::{fold_assignments, stable_hash, Holdout};
use mpgs::dbtool::gate::{
    current_rule_weights, freeze_eligible, holdout_gate, parse_evaluation_args,
    section_members, split_fold, FoldCounts, HoldoutFigures, EVALUATION_USAGE,
};
use mpgs::dbtool::golden::{
    section_index, validate_dataset, GoldenDataset, GoldenLabel, MIN_PUBLIC_LABELS,
    SCHEMA_VERSION, TOP_K,
};
use mpgs::dbtool::metrics::{all_positions, build_pairs, count_pairs};
use mpgs::dbtool::queries::{rank_queries, RankedQuery};
use mpgs::score::Score;
use mpgs::server::feed_query::FeedSection;

fn score(value: f64) -> Score {
    Score::from_bits(value.to_bits())
}

fn texts(items: &[&str]) -> Vec<String> {
    items.iter().map(|item| item.to_string()).collect()
}

fn label(persona: usize, game: usize, relevance: u8) -> GoldenLabel {
    let signal = f64::from(relevance) / 3.0;
    GoldenLabel {
        persona_id: format!("persona-{persona}"),
        app_id: game as u32 + 1,
        section: FeedSection::RecentRelease,
        relevance,
        personal_fit: score(signal),
        quality: score(signal),
        activity: score(1.0 - signal),
        momentum: score(0.5),
        freshness: score(0.5),
        demo: score(0.0),
        date_confidence: score(1.0),
        studio_prior: score(0.5),
        longevity: score(0.5),
        maintenance: score(0.5),
        risk: score(1.0 - signal),
        ccu_baseline: score(1.0 - signal),
        review_baseline: score(1.0 - signal),
    }
}

fn matrix(personas: usize, games: usize) -> Vec<GoldenLabel> {
    (0..personas)
        .flat_map(|persona| (0..games).map(move |game| label(persona, game, (game % 4) as u8)))
        .collect()
}

fn dataset(labels: Vec<GoldenLabel>) -> GoldenDataset {
    GoldenDataset { schema_version: SCHEMA_VERSION.to_owned(), labels }
}

// Datasets.

#[test]
fn public_validation_refuses_fewer_than_two_hundred_labels() {
    let error = validate_dataset(&dataset(matrix(9, 22)), MIN_PUBLIC_LABELS).unwrap_err();
    assert!(error.contains("at least 200 valid labels"));
    validate_dataset(&dataset(matrix(10, 20)), MIN_PUBLIC_LABELS).unwrap();
}

#[test]
fn labels_that_make_no_sense_are_refused() {
    let refused = |change: fn(&mut Vec<GoldenLabel>)| {
        let mut labels = matrix(10, 20);
        change(&mut labels);
        validate_dataset(&dataset(labels), MIN_PUBLIC_LABELS).is_err()
    };
    assert!(!refused(|_| {}));
    assert!(refused(|labels| labels[0].relevance = 4));
    assert!(refused(|labels| labels[0].app_id = 0));
    assert!(refused(|labels| labels[0].persona_id = "  ".to_owned()));
    assert!(refused(|labels| labels[0].quality = score(1.5)));
    assert!(refused(|labels| labels[0].quality = score(f64::NAN)));
    assert!(refused(|labels| labels[1].app_id = 1));
    let other = GoldenDataset { schema_version: "v0".to_owned(), labels: matrix(10, 20) };
    assert!(validate_dataset(&other, MIN_PUBLIC_LABELS).is_err());
}

// Folds.

#[test]
fn deterministic_folds_are_balanced_and_keep_entities_together() {
    let labels = matrix(11, 12);
    let first = fold_assignments(&labels, Holdout::Persona);
    let second = fold_assignments(&labels, Holdout::Persona);
    assert_eq!(first, second);
    let mut persona_folds: HashMap<&str, usize> = HashMap::new();
    for (label, fold) in labels.iter().zip(first) {
        assert_eq!(*persona_folds.entry(label.persona_id.as_str()).or_insert(fold), fold);
    }
    assert_eq!(persona_folds.values().copied().collect::<HashSet<usize>>().len(), 5);
}

#[test]
fn no_fold_has_two_entities_more_than_another() {
    let labels = matrix(3, 13);
    let folds = fold_assignments(&labels, Holdout::Game);
    let mut games: HashMap<usize, HashSet<u32>> = HashMap::new();
    for (label, fold) in labels.iter().zip(folds) {
        games.entry(fold).or_default().insert(label.app_id);
    }
    let sizes: Vec<usize> = games.values().map(|set| set.len()).collect();
    assert!(sizes.iter().max().unwrap() - sizes.iter().min().unwrap() <= 1);
    assert_ne!(stable_hash("a"), stable_hash("b"));
}

#[test]
fn a_fold_is_kept_out_of_its_training() {
    let (training, evaluation) = split_fold(&vec![0, 1, 0, 2], 0);
    assert_eq!(training, vec![1, 3]);
    assert_eq!(evaluation, vec![0, 2]);
    let mut labels = matrix(1, 4);
    labels[2].section = FeedSection::Upcoming;
    let members = section_members(&labels, &vec![0, 1, 2, 3], FeedSection::RecentRelease);
    assert_eq!(members, vec![0, 1, 3]);
}

// Metrics.

fn discount(rank: usize) -> f64 {
    1.0 / ((rank + 2) as f64).log2()
}

/// The gain of a ranking in which tied items share their places.
fn tie_aware_dcg(query: &RankedQuery) -> f64 {
    query
        .groups
        .iter()
        .map(|group| {
            let places: f64 =
                (group.start..group.end.min(TOP_K)).map(|rank| discount(rank)).sum();
            group.gain as f64 / (group.end - group.start) as f64 * places
        })
        .sum()
}

fn ideal_dcg(query: &RankedQuery) -> f64 {
    query
        .ideal
        .iter()
        .take(TOP_K)
        .enumerate()
        .map(|(rank, relevance)| ((1_u32 << *relevance) - 1) as f64 * discount(rank))
        .sum()
}

fn ndcg(labels: &Vec<GoldenLabel>, scores: &Vec<Score>) -> f64 {
    let queries = rank_queries(labels, scores);
    let total: f64 = queries.iter().map(|q| tie_aware_dcg(q) / ideal_dcg(q)).sum();
    total / queries.len() as f64
}

fn accuracy(labels: &Vec<GoldenLabel>, scores: &Vec<Score>) -> f64 {
    let counts = count_pairs(labels, scores);
    (counts.correct as f64 + counts.tied as f64 / 2.0) / counts.pairs as f64
}

#[test]
fn ndcg_and_pair_accuracy_reward_the_correct_direction() {
    let labels: Vec<GoldenLabel> =
        (0..8).map(|game| label(0, game, (game % 4) as u8)).collect();
    let good: Vec<Score> = labels.iter().map(|row| score(f64::from(row.relevance))).collect();
    let bad: Vec<Score> = labels.iter().map(|row| score(-f64::from(row.relevance))).collect();
    assert!((ndcg(&labels, &good) - 1.0).abs() < 1e-12);
    assert!((accuracy(&labels, &good) - 1.0).abs() < 1e-12);
    assert!(ndcg(&labels, &bad) < ndcg(&labels, &good));
    assert_eq!(accuracy(&labels, &bad), 0.0);
}

#[test]
fn exact_score_ties_do_not_gain_from_app_id_order() {
    let first = vec![label(0, 0, 3), label(0, 1, 0)];
    let second = vec![label(0, 1, 0), label(0, 0, 3)];
    let tied = vec![score(0.5), score(0.5)];
    let left = rank_queries(&first, &tied);
    let right = rank_queries(&second, &tied);
    assert!((tie_aware_dcg(&left[0]) - tie_aware_dcg(&right[0])).abs() < 1e-12);
}

#[test]
fn pairs_prefer_the_relevant() {
    let labels = vec![label(0, 0, 1), label(0, 1, 3), label(1, 0, 2)];
    let pairs = build_pairs(&labels, all_positions(3));
    assert_eq!(pairs, vec![(1, 0)]);
    let tied = count_pairs(&labels, &vec![score(0.5), score(0.5), score(0.5)]);
    assert_eq!((tied.pairs, tied.correct, tied.tied), (1, 0, 1));
    let right = count_pairs(&labels, &vec![score(0.1), score(0.9), score(0.5)]);
    assert_eq!((right.pairs, right.correct, right.tied), (1, 1, 0));
    let wrong = count_pairs(&labels, &vec![score(0.9), score(0.1), score(0.5)]);
    assert_eq!((wrong.pairs, wrong.correct, wrong.tied), (1, 0, 0));
}

// Freezing learned weights.

#[test]
fn the_rules_weights_keep_the_constraints() {
    for section in [
        FeedSection::RecentRelease,
        FeedSection::Upcoming,
        FeedSection::PopularLegacy,
        FeedSection::ClassicLegacy,
    ] {
        let weights = current_rule_weights(section);
        assert_eq!(weights[..10].iter().sum::<i32>(), 10_000);
        assert!((3_500..=5_500).contains(&weights[0]));
        assert!(weights[1..10].iter().all(|weight| *weight >= 0));
        assert!(weights[10] <= 0);
        assert!(section_index(section) < 4);
    }
    assert_eq!(
        current_rule_weights(FeedSection::RecentRelease),
        [4_500, 2_200, 1_100, 825, 1_375, 0, 0, 0, 0, 0, -1_100]
    );
}

#[test]
fn a_holdout_passes_only_where_every_figure_does() {
    let folds = vec![FoldCounts { queries: 1, pairs: 1 }];
    let figures = |ndcg: f64, lift: Option<f64>| HoldoutFigures {
        learned_ndcg: Some(score(ndcg)),
        pair_accuracy: Some(score(0.95)),
        lift_over_current_rule: lift.map(score),
        lift_over_ccu: Some(score(0.2)),
        lift_over_reviews: Some(score(0.2)),
    };
    assert!(holdout_gate(&folds, &figures(0.8, Some(0.05))));
    assert!(!holdout_gate(&folds, &figures(0.79, Some(0.05))));
    assert!(!holdout_gate(&folds, &figures(0.8, Some(0.049))));
    assert!(!holdout_gate(&folds, &figures(0.8, None)));
    let empty = vec![FoldCounts { queries: 1, pairs: 0 }];
    assert!(!holdout_gate(&empty, &figures(0.8, Some(0.05))));
    assert!(freeze_eligible(&vec![1, 1, 1, 1], true, true));
    assert!(!freeze_eligible(&vec![1, 0, 1, 1], true, true));
    assert!(!freeze_eligible(&vec![1, 1, 1, 1], true, false));
}

#[test]
fn an_evaluation_is_asked_for_with_a_file() {
    assert_eq!(parse_evaluation_args(&Vec::new()).unwrap_err(), EVALUATION_USAGE);
    let plain = parse_evaluation_args(&texts(&["labels.json"])).unwrap();
    assert_eq!((plain.labels_path.as_str(), plain.json), ("labels.json", false));
    assert!(parse_evaluation_args(&texts(&["labels.json", "--json"])).unwrap().json);
    assert_eq!(
        parse_evaluation_args(&texts(&["labels.json", "--fast"])).unwrap_err(),
        "unknown recommendation-golden-evaluate option: --fast"
    );
}
