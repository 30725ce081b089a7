//! Evaluation against human judgments: which judgments are accepted, how they are split
//! into folds, which of them are compared, and when learned weights may be adopted.

use vstd::prelude::*;

use crate::numbers::{decimal, u64_decimal};
use crate::score::{Score, ONE_KEY};
use crate::server::feed_query::FeedSection;
use crate::text::{is_blank, join2, list_contains, str_eq, trimmed, views};

verus! {

pub const SCHEMA_VERSION: &'static str = "recommendation_golden_labels_v1";

/// The fewest judgments that an evaluation accepts.
pub const MIN_PUBLIC_LABELS: usize = 200;

pub const FOLD_COUNT: usize = 5;

/// How many places of a ranking count.
pub const TOP_K: usize = 20;

pub const DETERMINISTIC_SEED: u64 = 0x4c6f_6262_7954_616c;

/// The number of features that a model weighs.
pub const FEATURE_COUNT: usize = 11;

/// A human judgment: how relevant a game is to a persona, with the features that a model
/// may go by. Every score is normalised to lie between 0 and 1.
#[derive(Debug)]
pub struct GoldenLabel {
    pub persona_id: String,
    pub app_id: u32,
    pub section: FeedSection,
    pub relevance: u8,
    pub personal_fit: Score,
    pub quality: Score,
    pub activity: Score,
    pub momentum: Score,
    pub freshness: Score,
    pub demo: Score,
    pub date_confidence: Score,
    pub studio_prior: Score,
    pub longevity: Score,
    pub maintenance: Score,
    pub risk: Score,
    pub ccu_baseline: Score,
    pub review_baseline: Score,
}

#[derive(Debug)]
pub struct GoldenDataset {
    pub schema_version: String,
    pub labels: Vec<GoldenLabel>,
}

pub open spec fn section_number(section: FeedSection) -> int {
    match section {
        FeedSection::RecentRelease => 0,
        FeedSection::Upcoming => 1,
        FeedSection::PopularLegacy => 2,
        FeedSection::ClassicLegacy => 3,
    }
}

pub fn section_index(section: FeedSection) -> (r: usize)
    ensures
        r == section_number(section),
{
    match section {
        FeedSection::RecentRelease => 0,
        FeedSection::Upcoming => 1,
        FeedSection::PopularLegacy => 2,
        FeedSection::ClassicLegacy => 3,
    }
}

// ---------------------------------------------------------------------------
// Validation
// ---------------------------------------------------------------------------

/// The normalised fields of a judgment, by number.
pub open spec fn scalar_field(label: GoldenLabel, k: int) -> (Seq<char>, Score) {
    if k == 0 {
        ("personal_fit"@, label.personal_fit)
    } else if k == 1 {
        ("quality"@, label.quality)
    } else if k == 2 {
        ("activity"@, label.activity)
    } else if k == 3 {
        ("momentum"@, label.momentum)
    } else if k == 4 {
        ("freshness"@, label.freshness)
    } else if k == 5 {
        ("demo"@, label.demo)
    } else if k == 6 {
        ("date_confidence"@, label.date_confidence)
    } else if k == 7 {
        ("studio_prior"@, label.studio_prior)
    } else if k == 8 {
        ("longevity"@, label.longevity)
    } else if k == 9 {
        ("maintenance"@, label.maintenance)
    } else if k == 10 {
        ("risk"@, label.risk)
    } else if k == 11 {
        ("ccu_baseline"@, label.ccu_baseline)
    } else {
        ("review_baseline"@, label.review_baseline)
    }
}

fn scalar_fields(label: &GoldenLabel, k: usize) -> (r: (&'static str, Score))
    requires
        k < 13,
    ensures
        r.0@ == scalar_field(*label, k as int).0,
        r.1 == scalar_field(*label, k as int).1,
{
    if k == 0 {
        ("personal_fit", label.personal_fit)
    } else if k == 1 {
        ("quality", label.quality)
    } else if k == 2 {
        ("activity", label.activity)
    } else if k == 3 {
        ("momentum", label.momentum)
    } else if k == 4 {
        ("freshness", label.freshness)
    } else if k == 5 {
        ("demo", label.demo)
    } else if k == 6 {
        ("date_confidence", label.date_confidence)
    } else if k == 7 {
        ("studio_prior", label.studio_prior)
    } else if k == 8 {
        ("longevity", label.longevity)
    } else if k == 9 {
        ("maintenance", label.maintenance)
    } else if k == 10 {
        ("risk", label.risk)
    } else if k == 11 {
        ("ccu_baseline", label.ccu_baseline)
    } else {
        ("review_baseline", label.review_baseline)
    }
}

/// A number between 0 and 1.
pub open spec fn is_normalised(score: Score) -> bool {
    score.finite() && score.at_least(Score { key: 0 }) && (Score { key: ONE_KEY }).at_least(score)
}

/// The first field from `k` on that is not between 0 and 1.
pub open spec fn bad_field(label: GoldenLabel, k: int) -> Option<Seq<char>>
    decreases 13 - k,
{
    if k >= 13 {
        None
    } else if !is_normalised(scalar_field(label, k).1) {
        Some(scalar_field(label, k).0)
    } else {
        bad_field(label, k + 1)
    }
}

fn find_bad_field(label: &GoldenLabel) -> (r: Option<&'static str>)
    ensures
        match bad_field(*label, 0) {
            Some(name) => r is Some && r->0@ == name,
            None => r is None,
        },
{
    let mut k: usize = 0;
    while k < 13
        invariant
            0 <= k <= 13,
            bad_field(*label, 0) == bad_field(*label, k as int),
        decreases 13 - k,
    {
        let (name, score) = scalar_fields(label, k);
        if !(score.is_finite() && score.reaches(Score { key: 0 }) && (Score {
            key: ONE_KEY,
        }).reaches(score)) {
            return Some(name);
        }
        k = k + 1;
    }
    None
}

/// The two are judgments of the same game for the same persona in the same section.
pub open spec fn same_judgment(a: GoldenLabel, b: GoldenLabel) -> bool {
    a.persona_id@ == b.persona_id@ && a.app_id == b.app_id && a.section == b.section
}

pub open spec fn already_judged(front: Seq<GoldenLabel>, label: GoldenLabel) -> bool {
    exists|j: int| 0 <= j < front.len() && same_judgment(#[trigger] front[j], label)
}

/// `label 7: ...`
pub open spec fn about_row(row: nat, what: Seq<char>) -> Seq<char> {
    "label "@ + decimal(row) + ": "@ + what
}

/// What is wrong with a judgment that stands behind others.
pub open spec fn label_fault(front: Seq<GoldenLabel>, label: GoldenLabel) -> Option<Seq<char>> {
    let row = front.len() + 1;
    if trimmed(label.persona_id@).len() == 0 {
        Some(about_row(row, "persona_id must not be empty"@))
    } else if label.app_id == 0 {
        Some(about_row(row, "app_id must be non-zero"@))
    } else if label.relevance > 3 {
        Some(about_row(row, "relevance must be between 0 and 3"@))
    } else if bad_field(label, 0) is Some {
        Some(about_row(row, bad_field(label, 0)->0 + " must be a finite number between 0 and 1"@))
    } else if already_judged(front, label) {
        Some(about_row(row, "duplicate persona_id/app_id/section judgment"@))
    } else {
        None
    }
}

/// The first fault among the judgments.
pub open spec fn labels_fault(labels: Seq<GoldenLabel>) -> Option<Seq<char>>
    decreases labels.len(),
{
    if labels.len() == 0 {
        None
    } else {
        let front = labels_fault(labels.drop_last());
        if front is Some {
            front
        } else {
            label_fault(labels.drop_last(), labels.last())
        }
    }
}

/// The different texts of a list, each once, in the order of their first occurrence.
pub open spec fn distinct(texts: Seq<Seq<char>>) -> Seq<Seq<char>>
    decreases texts.len(),
{
    if texts.len() == 0 {
        Seq::empty()
    } else {
        let front = distinct(texts.drop_last());
        if front.contains(texts.last()) {
            front
        } else {
            front.push(texts.last())
        }
    }
}

pub open spec fn personas_of(labels: Seq<GoldenLabel>) -> Seq<Seq<char>> {
    labels.map_values(|label: GoldenLabel| label.persona_id@)
}

pub open spec fn games_of(labels: Seq<GoldenLabel>) -> Seq<Seq<char>> {
    labels.map_values(|label: GoldenLabel| decimal(label.app_id as nat))
}

/// What is wrong with a set of judgments.
pub open spec fn dataset_fault(dataset: GoldenDataset, minimum: usize) -> Option<Seq<char>> {
    let labels = dataset.labels@;
    if dataset.schema_version@ != SCHEMA_VERSION@ {
        Some(
            "schema_version must be "@ + SCHEMA_VERSION@ + ", found "@ + dataset.schema_version@,
        )
    } else if labels_fault(labels) is Some {
        labels_fault(labels)
    } else if labels.len() < minimum {
        Some(
            "at least "@ + decimal(minimum as nat) + " valid labels are required; found "@ + decimal(
                labels.len(),
            ),
        )
    } else if distinct(personas_of(labels)).len() < FOLD_COUNT {
        Some("at least 5 distinct personas are required for five-fold persona holdout"@)
    } else if distinct(games_of(labels)).len() < FOLD_COUNT {
        Some("at least 5 distinct games are required for five-fold game holdout"@)
    } else {
        None
    }
}

fn row_message(row: usize, what: &str) -> (r: String)
    ensures
        r@ == about_row(row as nat, what@),
{
    let mut out = "label ".to_owned();
    out.append(u64_decimal(row as u64).as_str());
    out.append(": ");
    out.append(what);
    out
}

fn is_already_judged(labels: &Vec<GoldenLabel>, i: usize) -> (r: bool)
    requires
        i < labels@.len(),
    ensures
        r == already_judged(labels@.take(i as int), labels@[i as int]),
{
    let label = &labels[i];
    let mut j: usize = 0;
    while j < i
        invariant
            0 <= j <= i < labels@.len(),
            *label == labels@[i as int],
            forall|k: int| 0 <= k < j ==> !same_judgment(#[trigger] labels@[k], *label),
        decreases i - j,
    {
        if labels[j].app_id == label.app_id && labels[j].section == label.section && str_eq(
            labels[j].persona_id.as_str(),
            label.persona_id.as_str(),
        ) {
            proof {
                assert(same_judgment(labels@.take(i as int)[j as int], *label));
            }
            return true;
        }
        j = j + 1;
    }
    proof {
        assert forall|k: int| 0 <= k < labels@.take(i as int).len() implies !same_judgment(
            #[trigger] labels@.take(i as int)[k],
            *label,
        ) by {
            assert(labels@.take(i as int)[k] == labels@[k]);
        }
    }
    false
}

fn check_label(labels: &Vec<GoldenLabel>, i: usize) -> (r: Result<(), String>)
    requires
        i < labels@.len(),
    ensures
        match label_fault(labels@.take(i as int), labels@[i as int]) {
            Some(message) => r matches Err(text) && text@ == message,
            None => r is Ok,
        },
{
    let count: usize = labels.len();
    assert(i < count);
    let row: usize = i + 1;
    let label = &labels[i];
    if is_blank(label.persona_id.as_str()) {
        return Err(row_message(row, "persona_id must not be empty"));
    }
    if label.app_id == 0 {
        return Err(row_message(row, "app_id must be non-zero"));
    }
    if label.relevance > 3 {
        return Err(row_message(row, "relevance must be between 0 and 3"));
    }
    if let Some(name) = find_bad_field(label) {
        return Err(
            row_message(row, join2(name, " must be a finite number between 0 and 1").as_str()),
        );
    }
    if is_already_judged(labels, i) {
        return Err(row_message(row, "duplicate persona_id/app_id/section judgment"));
    }
    Ok(())
}

proof fn lemma_labels_fault_stays(labels: Seq<GoldenLabel>, k: int)
    requires
        0 <= k <= labels.len(),
        labels_fault(labels.take(k)) is Some,
    ensures
        labels_fault(labels) == labels_fault(labels.take(k)),
    decreases labels.len(),
{
    if k == labels.len() {
        assert(labels.take(k) =~= labels);
    } else {
        assert(labels.drop_last().take(k) =~= labels.take(k));
        lemma_labels_fault_stays(labels.drop_last(), k);
    }
}

pub fn distinct_texts(texts: &Vec<String>) -> (r: Vec<String>)
    ensures
        views(r@) == distinct(views(texts@)),
{
    let mut out: Vec<String> = Vec::new();
    let mut i: usize = 0;
    assert(views(texts@).take(0) =~= Seq::empty());
    assert(views(out@) =~= Seq::empty());
    while i < texts.len()
        invariant
            0 <= i <= texts@.len(),
            views(out@) == distinct(views(texts@).take(i as int)),
        decreases texts@.len() - i,
    {
        proof {
            let next = views(texts@).take(i + 1);
            assert(next.drop_last() =~= views(texts@).take(i as int));
            assert(next.last() == texts@[i as int]@);
        }
        if !list_contains(&out, texts[i].as_str()) {
            let text = texts[i].clone();
            proof {
                assert(views(out@.push(text)) =~= views(out@).push(text@));
            }
            out.push(text);
        }
        i = i + 1;
    }
    assert(views(texts@).take(texts@.len() as int) =~= views(texts@));
    out
}

fn persona_list(labels: &Vec<GoldenLabel>) -> (r: Vec<String>)
    ensures
        views(r@) == personas_of(labels@),
{
    let mut out: Vec<String> = Vec::new();
    let mut i: usize = 0;
    while i < labels.len()
        invariant
            0 <= i <= labels@.len(),
            out@.len() == i,
            forall|j: int| 0 <= j < i ==> (#[trigger] out@[j])@ == labels@[j].persona_id@,
        decreases labels@.len() - i,
    {
        out.push(labels[i].persona_id.clone());
        i = i + 1;
    }
    assert(views(out@) =~= personas_of(labels@));
    out
}

fn game_list(labels: &Vec<GoldenLabel>) -> (r: Vec<String>)
    ensures
        views(r@) == games_of(labels@),
{
    let mut out: Vec<String> = Vec::new();
    let mut i: usize = 0;
    while i < labels.len()
        invariant
            0 <= i <= labels@.len(),
            out@.len() == i,
            forall|j: int| 0 <= j < i ==> (#[trigger] out@[j])@ == decimal(labels@[j].app_id as nat),
        decreases labels@.len() - i,
    {
        out.push(u64_decimal(labels[i].app_id as u64));
        i = i + 1;
    }
    assert(views(out@) =~= games_of(labels@));
    out
}

/// Accepts a set of judgments, or says what is wrong with it.
pub fn validate_dataset(dataset: &GoldenDataset, minimum_labels: usize) -> (r: Result<(), String>)
    ensures
        match dataset_fault(*dataset, minimum_labels) {
            Some(message) => r matches Err(text) && text@ == message,
            None => r is Ok,
        },
{
    if !str_eq(dataset.schema_version.as_str(), SCHEMA_VERSION) {
        let mut message = "schema_version must be ".to_owned();
        message.append(SCHEMA_VERSION);
        message.append(", found ");
        message.append(dataset.schema_version.as_str());
        return Err(message);
    }
    let labels = &dataset.labels;
    let mut i: usize = 0;
    assert(labels@.take(0) =~= Seq::empty());
    while i < labels.len()
        invariant
            0 <= i <= labels@.len(),
            *labels == dataset.labels,
            dataset.schema_version@ == SCHEMA_VERSION@,
            labels_fault(labels@.take(i as int)) is None,
        decreases labels@.len() - i,
    {
        proof {
            assert(labels@.take(i + 1).drop_last() =~= labels@.take(i as int));
            assert(labels@.take(i + 1).last() == labels@[i as int]);
        }
        match check_label(labels, i) {
            Ok(()) => {},
            Err(message) => {
                proof {
                    lemma_labels_fault_stays(labels@, i + 1);
                }
                return Err(message);
            },
        }
        i = i + 1;
    }
    assert(labels@.take(labels@.len() as int) =~= labels@);
    if labels.len() < minimum_labels {
        let mut message = "at least ".to_owned();
        message.append(u64_decimal(minimum_labels as u64).as_str());
        message.append(" valid labels are required; found ");
        message.append(u64_decimal(labels.len() as u64).as_str());
        return Err(message);
    }
    let personas = distinct_texts(&persona_list(labels));
    assert(views(personas@).len() == personas@.len());
    if personas.len() < FOLD_COUNT {
        return Err(
            "at least 5 distinct personas are required for five-fold persona holdout".to_owned(),
        );
    }
    let games = distinct_texts(&game_list(labels));
    assert(views(games@).len() == games@.len());
    if games.len() < FOLD_COUNT {
        return Err("at least 5 distinct games are required for five-fold game holdout".to_owned());
    }
    Ok(())
}

/// What was accepted can be relied on: every judgment names a persona and a game, its
/// relevance and its scores are in range, and no judgment is given twice.
pub proof fn lemma_accepted_labels_are_clean(labels: Seq<GoldenLabel>, i: int)
    requires
        labels_fault(labels) is None,
        0 <= i < labels.len(),
    ensures
        trimmed(labels[i].persona_id@).len() > 0,
        labels[i].app_id > 0,
        labels[i].relevance <= 3,
        bad_field(labels[i], 0) is None,
        forall|j: int| 0 <= j < i ==> !same_judgment(#[trigger] labels[j], labels[i]),
    decreases labels.len(),
{
    let front = labels.drop_last();
    if i < labels.len() - 1 {
        assert(front[i] == labels[i]);
        lemma_accepted_labels_are_clean(front, i);
        assert forall|j: int| 0 <= j < i implies !same_judgment(#[trigger] labels[j], labels[i]) by {
            assert(front[j] == labels[j]);
        }
    } else {
        assert(label_fault(front, labels.last()) is None);
        assert forall|j: int| 0 <= j < i implies !same_judgment(#[trigger] labels[j], labels[i]) by {
            assert(front[j] == labels[j]);
        }
    }
}

} // verus!
