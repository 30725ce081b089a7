//! How the scores of a ranking spread and tie, and what is behind equal scores.

use vstd::prelude::*;

use crate::dbtool::audit::{
    as_ints, first_rows, same_fingerprint, shown_indices, summarize_recommendation_indices,
    visible_indices, AuditRow, EffectiveFeatureFingerprint, RecommendationIndexAudit,
    QUALITY_GATE_TOP,
};
use crate::dbtool::sorted::{insert_sorted, insert_text};
use crate::dbtool::tally::{larger, tally, tie_size, Tally};
use crate::score::{Score, ONE_KEY};
use crate::sort::{sort_stable, stable_sorted, Precedence};
use crate::text::{
    ascii_lowercase, opt_view, str_eq, to_ascii_lower, trim, trimmed, views,
};

verus! {

// ---------------------------------------------------------------------------
// Fingerprints
// ---------------------------------------------------------------------------

/// The tags in lower case and in order, each once, without blanks.
pub open spec fn normal_tags(tags: Seq<Seq<char>>) -> Seq<Seq<char>>
    decreases tags.len(),
{
    if tags.len() == 0 {
        Seq::empty()
    } else {
        let front = normal_tags(tags.drop_last());
        let tag = to_ascii_lower(trimmed(tags.last()));
        if tag.len() == 0 {
            front
        } else {
            insert_text(front, tag)
        }
    }
}

pub open spec fn normal_text(text: Option<Seq<char>>) -> Option<Seq<char>> {
    match text {
        Some(t) => if trimmed(t).len() > 0 {
            Some(to_ascii_lower(trimmed(t)))
        } else {
            None
        },
        None => None,
    }
}

fn normalize_text(text: &Option<String>) -> (r: Option<String>)
    ensures
        opt_view(r) == normal_text(opt_view(*text)),
{
    match text {
        Some(t) => {
            let inner = trim(t.as_str());
            if inner.as_str().is_empty() {
                None
            } else {
                Some(ascii_lowercase(inner.as_str()))
            }
        },
        None => None,
    }
}

fn normalize_tags(tags: &Vec<String>) -> (r: Vec<String>)
    ensures
        views(r@) == normal_tags(views(tags@)),
{
    let mut out: Vec<String> = Vec::new();
    let mut i: usize = 0;
    assert(views(tags@).take(0) =~= Seq::empty());
    assert(views(out@) =~= Seq::empty());
    while i < tags.len()
        invariant
            0 <= i <= tags@.len(),
            views(out@) == normal_tags(views(tags@).take(i as int)),
        decreases tags@.len() - i,
    {
        proof {
            let next = views(tags@).take(i + 1);
            assert(next.drop_last() =~= views(tags@).take(i as int));
            assert(next.last() == tags@[i as int]@);
        }
        let tag = ascii_lowercase(trim(tags[i].as_str()).as_str());
        if !tag.as_str().is_empty() {
            insert_sorted(&mut out, tag);
        }
        i = i + 1;
    }
    assert(views(tags@).take(tags@.len() as int) =~= views(tags@));
    out
}

/// What is known of a ranked game. `score_components` are the parts of its score and the
/// confidence in its data, `mode` the name of its mode family, where that is known.
#[derive(Debug)]
pub struct RankedFacts {
    pub score_components: Vec<Score>,
    pub mode: Option<String>,
    pub taxonomy_tags: Vec<String>,
    pub publisher: Option<String>,
    pub series: Option<String>,
    pub recommended_min: Option<u8>,
    pub recommended_max: Option<u8>,
}

/// What the score of a game goes by, in a form in which equal things are equal.
pub fn score_feature_fingerprint(item: RankedFacts) -> (r: EffectiveFeatureFingerprint)
    ensures
        r.score_components@ == item.score_components@,
        opt_view(r.mode) == opt_view(item.mode),
        views(r.taxonomy_tags@) == normal_tags(views(item.taxonomy_tags@)),
        opt_view(r.publisher) == normal_text(opt_view(item.publisher)),
        opt_view(r.series) == normal_text(opt_view(item.series)),
        r.recommended_min == item.recommended_min,
        r.recommended_max == item.recommended_max,
{
    let taxonomy_tags = normalize_tags(&item.taxonomy_tags);
    let publisher = normalize_text(&item.publisher);
    let series = normalize_text(&item.series);
    EffectiveFeatureFingerprint {
        score_components: item.score_components,
        mode: item.mode,
        taxonomy_tags,
        publisher,
        series,
        recommended_min: item.recommended_min,
        recommended_max: item.recommended_max,
    }
}

fn opt_eq(a: &Option<String>, b: &Option<String>) -> (r: bool)
    ensures
        r == (opt_view(*a) == opt_view(*b)),
{
    match (a, b) {
        (Some(x), Some(y)) => str_eq(x.as_str(), y.as_str()),
        (None, None) => true,
        _ => false,
    }
}

fn scores_eq(a: &Vec<Score>, b: &Vec<Score>) -> (r: bool)
    ensures
        r == (a@ == b@),
{
    if a.len() != b.len() {
        return false;
    }
    let mut i: usize = 0;
    while i < a.len()
        invariant
            0 <= i <= a@.len() == b@.len(),
            forall|j: int| 0 <= j < i ==> #[trigger] a@[j] == b@[j],
        decreases a@.len() - i,
    {
        if a[i] != b[i] {
            assert(a@[i as int] != b@[i as int]);
            return false;
        }
        i = i + 1;
    }
    assert(a@ =~= b@);
    true
}

fn texts_eq(a: &Vec<String>, b: &Vec<String>) -> (r: bool)
    ensures
        r == (views(a@) == views(b@)),
{
    if a.len() != b.len() {
        assert(views(a@).len() != views(b@).len());
        return false;
    }
    let mut i: usize = 0;
    while i < a.len()
        invariant
            0 <= i <= a@.len() == b@.len(),
            forall|j: int| 0 <= j < i ==> (#[trigger] a@[j])@ == b@[j]@,
        decreases a@.len() - i,
    {
        if !str_eq(a[i].as_str(), b[i].as_str()) {
            assert(views(a@)[i as int] != views(b@)[i as int]);
            return false;
        }
        i = i + 1;
    }
    assert(views(a@) =~= views(b@));
    true
}

fn equal_fingerprints(a: &EffectiveFeatureFingerprint, b: &EffectiveFeatureFingerprint) -> (r: bool)
    ensures
        r == same_fingerprint(*a, *b),
{
    scores_eq(&a.score_components, &b.score_components) && opt_eq(&a.mode, &b.mode) && texts_eq(
        &a.taxonomy_tags,
        &b.taxonomy_tags,
    ) && opt_eq(&a.publisher, &b.publisher) && opt_eq(&a.series, &b.series) && a.recommended_min
        == b.recommended_min && a.recommended_max == b.recommended_max
}

// ---------------------------------------------------------------------------
// Counting fingerprints
// ---------------------------------------------------------------------------

/// Both rows have a fingerprint, and it is the same.
pub open spec fn same_print(a: AuditRow, b: AuditRow) -> bool {
    a.fingerprint is Some && b.fingerprint is Some && same_fingerprint(
        a.fingerprint->0,
        b.fingerprint->0,
    )
}

/// The row counts and has a fingerprint that none of the counting rows before it has.
pub open spec fn is_new_print(rows: Seq<AuditRow>, counts: Seq<bool>, i: int) -> bool {
    counts[i] && rows[i].fingerprint is Some && forall|j: int|
        0 <= j < i && counts[j] ==> !same_print(#[trigger] rows[j], rows[i])
}

/// How many different fingerprints the counting rows before `n` have.
pub open spec fn distinct_prints(rows: Seq<AuditRow>, counts: Seq<bool>, n: int) -> nat
    decreases n,
{
    if n <= 0 {
        0
    } else {
        distinct_prints(rows, counts, n - 1) + (if is_new_print(rows, counts, n - 1) {
            1nat
        } else {
            0
        })
    }
}

fn new_print(rows: &Vec<AuditRow>, counts: &Vec<bool>, i: usize) -> (r: bool)
    requires
        i < rows@.len(),
        counts@.len() <= rows@.len(),
        i < counts@.len(),
    ensures
        r == is_new_print(rows@, counts@, i as int),
{
    if !counts[i] {
        return false;
    }
    let print = match &rows[i].fingerprint {
        Some(print) => print,
        None => return false,
    };
    let mut j: usize = 0;
    while j < i
        invariant
            0 <= j <= i < counts@.len() <= rows@.len(),
            counts@[i as int],
            rows@[i as int].fingerprint == Some(*print),
            forall|k: int|
                0 <= k < j && counts@[k] ==> !same_print(#[trigger] rows@[k], rows@[i as int]),
        decreases i - j,
    {
        if counts[j] {
            if let Some(other) = &rows[j].fingerprint {
                if equal_fingerprints(other, print) {
                    assert(same_print(rows@[j as int], rows@[i as int]));
                    return false;
                }
            }
        }
        j = j + 1;
    }
    true
}

fn count_prints(rows: &Vec<AuditRow>, counts: &Vec<bool>) -> (r: usize)
    requires
        counts@.len() <= rows@.len(),
    ensures
        r == distinct_prints(rows@, counts@, counts@.len() as int),
{
    let mut count: usize = 0;
    let mut i: usize = 0;
    while i < counts.len()
        invariant
            0 <= i <= counts@.len() <= rows@.len(),
            count <= i,
            count == distinct_prints(rows@, counts@, i as int),
        decreases counts@.len() - i,
    {
        if new_print(rows, counts, i) {
            count = count + 1;
        }
        i = i + 1;
    }
    count
}

/// The rows that count and have this score.
pub open spec fn with_score(rows: Seq<AuditRow>, counts: Seq<bool>, score: Score) -> Seq<bool> {
    Seq::new(counts.len(), |i: int| counts[i] && rows[i].relevance == score)
}

/// The row counts, has a fingerprint, and is the first such row of its score.
pub open spec fn leads_score(rows: Seq<AuditRow>, counts: Seq<bool>, i: int) -> bool {
    counts[i] && rows[i].fingerprint is Some && forall|j: int|
        0 <= j < i && counts[j] ==> !((#[trigger] rows[j]).fingerprint is Some && rows[j].relevance
            == rows[i].relevance)
}

/// How many different fingerprints share the score of row `i`.
pub open spec fn prints_of_score(rows: Seq<AuditRow>, counts: Seq<bool>, i: int) -> nat {
    distinct_prints(rows, with_score(rows, counts, rows[i].relevance), counts.len() as int)
}

/// How many scores before `n` are shared by different fingerprints.
pub open spec fn cross_groups(rows: Seq<AuditRow>, counts: Seq<bool>, n: int) -> nat
    decreases n,
{
    if n <= 0 {
        0
    } else {
        cross_groups(rows, counts, n - 1) + (if leads_score(rows, counts, n - 1)
            && prints_of_score(rows, counts, n - 1) > 1 {
            1nat
        } else {
            0
        })
    }
}

/// How many different fingerprints share one score, at most; none when no score is shared.
pub open spec fn cross_largest(rows: Seq<AuditRow>, counts: Seq<bool>, n: int) -> nat
    decreases n,
{
    if n <= 0 {
        0
    } else if leads_score(rows, counts, n - 1) {
        larger(
            cross_largest(rows, counts, n - 1),
            tie_size(prints_of_score(rows, counts, n - 1)),
        )
    } else {
        cross_largest(rows, counts, n - 1)
    }
}

fn is_leader(rows: &Vec<AuditRow>, counts: &Vec<bool>, i: usize) -> (r: bool)
    requires
        counts@.len() <= rows@.len(),
        i < counts@.len(),
    ensures
        r == leads_score(rows@, counts@, i as int),
{
    if !counts[i] || rows[i].fingerprint.is_none() {
        return false;
    }
    let mut j: usize = 0;
    while j < i
        invariant
            0 <= j <= i < counts@.len() <= rows@.len(),
            counts@[i as int] && rows@[i as int].fingerprint is Some,
            forall|k: int|
                0 <= k < j && counts@[k] ==> !((#[trigger] rows@[k]).fingerprint is Some
                    && rows@[k].relevance == rows@[i as int].relevance),
        decreases i - j,
    {
        if counts[j] && rows[j].fingerprint.is_some() && rows[j].relevance == rows[i].relevance {
            assert(rows@[j as int].fingerprint is Some && rows@[j as int].relevance
                == rows@[i as int].relevance);
            return false;
        }
        j = j + 1;
    }
    true
}

fn mask_score(rows: &Vec<AuditRow>, counts: &Vec<bool>, score: Score) -> (r: Vec<bool>)
    requires
        counts@.len() <= rows@.len(),
    ensures
        r@ == with_score(rows@, counts@, score),
{
    let mut out: Vec<bool> = Vec::new();
    let mut i: usize = 0;
    while i < counts.len()
        invariant
            0 <= i <= counts@.len() <= rows@.len(),
            out@.len() == i,
            forall|j: int|
                0 <= j < i ==> #[trigger] out@[j] == (counts@[j] && rows@[j].relevance == score),
        decreases counts@.len() - i,
    {
        out.push(counts[i] && rows[i].relevance == score);
        i = i + 1;
    }
    assert(out@ =~= with_score(rows@, counts@, score));
    out
}

fn count_cross_ties(rows: &Vec<AuditRow>, counts: &Vec<bool>) -> (r: (usize, usize))
    requires
        counts@.len() <= rows@.len(),
    ensures
        r.0 == cross_groups(rows@, counts@, counts@.len() as int),
        r.1 == cross_largest(rows@, counts@, counts@.len() as int),
{
    let mut groups: usize = 0;
    let mut largest: usize = 0;
    let mut i: usize = 0;
    while i < counts.len()
        invariant
            0 <= i <= counts@.len() <= rows@.len(),
            groups <= i,
            groups == cross_groups(rows@, counts@, i as int),
            largest == cross_largest(rows@, counts@, i as int),
        decreases counts@.len() - i,
    {
        if is_leader(rows, counts, i) {
            let mask = mask_score(rows, counts, rows[i].relevance);
            let prints: usize = count_prints(rows, &mask);
            if prints > 1 {
                groups = groups + 1;
                if prints > largest {
                    largest = prints;
                }
            }
        }
        i = i + 1;
    }
    (groups, largest)
}

// ---------------------------------------------------------------------------
// The summary
// ---------------------------------------------------------------------------

/// A score that is shown as another number than it is: not a number, or not between 0 and 1.
pub open spec fn is_clamped(score: Score) -> bool {
    !(score.finite() && score.at_least(Score { key: 0 }) && (Score { key: ONE_KEY }).at_least(score))
}

pub open spec fn clamped_before(rows: Seq<AuditRow>, n: int) -> nat
    decreases n,
{
    if n <= 0 {
        0
    } else {
        clamped_before(rows, n - 1) + (if is_clamped(rows[n - 1].relevance) {
            1nat
        } else {
            0
        })
    }
}

pub open spec fn relevance_keys(rows: Seq<AuditRow>) -> Seq<i64> {
    rows.map_values(|row: AuditRow| row.relevance.key)
}

pub open spec fn rounded_keys(rows: Seq<AuditRow>) -> Seq<i64> {
    rows.map_values(|row: AuditRow| row.rounded_100)
}

/// Keys in ascending order.
pub struct KeyOrder;

impl Precedence<i64> for KeyOrder {
    open spec fn orders(&self, item: i64) -> bool {
        true
    }

    open spec fn precedes(&self, a: i64, b: i64) -> bool {
        a <= b
    }

    proof fn lemma_total(&self, a: i64, b: i64) {
    }

    proof fn lemma_transitive(&self, a: i64, b: i64, c: i64) {
    }

    fn may_precede(&self, a: &i64, b: &i64) -> (r: bool) {
        *a <= *b
    }
}

/// How the scores of a ranking spread. The median is the middle one of the scores in order,
/// or between the two in the middle: `median_low` and `median_high` are the two, which are
/// one and the same where there is a middle one.
#[derive(Debug)]
pub struct ScoreAudit {
    pub count: usize,
    pub min: Option<Score>,
    pub median_low: Option<Score>,
    pub median_high: Option<Score>,
    pub max: Option<Score>,
    pub exact: Tally,
    pub rounded: Tally,
    pub clamp_count: usize,
    pub recommendation_index: RecommendationIndexAudit,
    pub quality_top20_recommendation_index: RecommendationIndexAudit,
    pub top20_exact: Tally,
    pub top20_distinct_evidence_vectors: usize,
    pub top20_distinct_visible_evidence_vectors: usize,
    pub top20_cross_vector_exact_tie_groups: usize,
    pub top20_largest_cross_vector_exact_tie: usize,
}

pub open spec fn all_true(n: nat) -> Seq<bool> {
    Seq::new(n, |i: int| true)
}

/// Which of these games show an index.
pub open spec fn shows_index(window: Seq<AuditRow>) -> Seq<bool> {
    Seq::new(window.len(), |i: int| shown_indices(window)[i] is Some)
}

/// The score at place `k` when the scores are put in order.
pub open spec fn is_place(score: Option<Score>, keys: Seq<i64>, k: int) -> bool {
    if keys.len() == 0 {
        score is None
    } else {
        score is Some && score->0.key == stable_sorted(keys, &KeyOrder)[k]
    }
}

impl ScoreAudit {
    pub open spec fn audits(self, rows: Seq<AuditRow>, top: usize) -> bool {
        let n = rows.len() as int;
        let keys = relevance_keys(rows);
        let top20 = first_rows(rows, QUALITY_GATE_TOP);
        let m = top20.len() as int;
        &&& self.count == n
        &&& is_place(self.min, keys, 0)
        &&& is_place(self.median_low, keys, (n - 1) / 2)
        &&& is_place(self.median_high, keys, n / 2)
        &&& is_place(self.max, keys, n - 1)
        &&& self.exact.counts(keys)
        &&& self.rounded.counts(rounded_keys(rows))
        &&& self.clamp_count == clamped_before(rows, n)
        &&& self.recommendation_index.audits(first_rows(rows, top))
        &&& self.quality_top20_recommendation_index.audits(top20)
        &&& self.top20_exact.counts(relevance_keys(top20))
        &&& self.top20_distinct_evidence_vectors == distinct_prints(rows, all_true(m as nat), m)
        &&& self.top20_distinct_visible_evidence_vectors == distinct_prints(
            rows,
            shows_index(top20),
            m,
        )
        &&& self.top20_cross_vector_exact_tie_groups == cross_groups(rows, shows_index(top20), m)
        &&& self.top20_largest_cross_vector_exact_tie == cross_largest(
            rows,
            shows_index(top20),
            m,
        )
    }
}

fn first_keys(rows: &Vec<AuditRow>, count: usize, rounded: bool) -> (r: Vec<i64>)
    requires
        count <= rows@.len(),
    ensures
        rounded ==> r@ == rounded_keys(rows@.take(count as int)),
        !rounded ==> r@ == relevance_keys(rows@.take(count as int)),
{
    let mut out: Vec<i64> = Vec::new();
    let mut i: usize = 0;
    while i < count
        invariant
            0 <= i <= count <= rows@.len(),
            out@.len() == i,
            forall|j: int|
                0 <= j < i ==> #[trigger] out@[j] == (if rounded {
                    rows@[j].rounded_100
                } else {
                    rows@[j].relevance.key
                }),
        decreases count - i,
    {
        let key: i64 = if rounded {
            rows[i].rounded_100
        } else {
            rows[i].relevance.key
        };
        out.push(key);
        i = i + 1;
    }
    proof {
        if rounded {
            assert(out@ =~= rounded_keys(rows@.take(count as int)));
        } else {
            assert(out@ =~= relevance_keys(rows@.take(count as int)));
        }
    }
    out
}

fn count_clamped(rows: &Vec<AuditRow>) -> (r: usize)
    ensures
        r == clamped_before(rows@, rows@.len() as int),
{
    let mut count: usize = 0;
    let mut i: usize = 0;
    while i < rows.len()
        invariant
            0 <= i <= rows@.len(),
            count <= i,
            count == clamped_before(rows@, i as int),
        decreases rows@.len() - i,
    {
        let score = rows[i].relevance;
        if !(score.is_finite() && score.reaches(Score { key: 0 }) && (Score {
            key: ONE_KEY,
        }).reaches(score)) {
            count = count + 1;
        }
        i = i + 1;
    }
    count
}

fn visible_mask(rows: &Vec<AuditRow>, count: usize) -> (r: Vec<bool>)
    requires
        count <= rows@.len(),
    ensures
        r@ == shows_index(rows@.take(count as int)),
        r@.len() == count,
{
    let seen = visible_indices(rows, count);
    let ghost window = rows@.take(count as int);
    let mut out: Vec<bool> = Vec::new();
    let mut i: usize = 0;
    while i < count
        invariant
            0 <= i <= count == seen@.len(),
            as_ints(seen@) == shown_indices(window),
            out@.len() == i,
            forall|j: int|
                0 <= j < i ==> #[trigger] out@[j] == (shown_indices(window)[j] is Some),
        decreases count - i,
    {
        proof {
            assert(as_ints(seen@)[i as int] == shown_indices(window)[i as int]);
        }
        out.push(seen[i].is_some());
        i = i + 1;
    }
    assert(out@ =~= shows_index(window));
    out
}

fn full_mask(count: usize) -> (r: Vec<bool>)
    ensures
        r@ == all_true(count as nat),
{
    let mut out: Vec<bool> = Vec::new();
    let mut i: usize = 0;
    while i < count
        invariant
            0 <= i <= count,
            out@ == all_true(i as nat),
        decreases count - i,
    {
        proof {
            assert(all_true((i + 1) as nat) =~= all_true(i as nat).push(true));
        }
        out.push(true);
        i = i + 1;
    }
    out
}

/// Audits the scores of a ranking of which a request shows the first `top`.
pub fn summarize_scores(rows: &Vec<AuditRow>, top: usize) -> (r: ScoreAudit)
    ensures
        r.audits(rows@, top),
{
    let n: usize = rows.len();
    let m: usize = if n <= QUALITY_GATE_TOP {
        n
    } else {
        QUALITY_GATE_TOP
    };
    assert(rows@.take(n as int) =~= rows@);
    let keys = first_keys(rows, n, false);
    let exact = tally(&keys);
    let rounded = tally(&first_keys(rows, n, true));
    let ghost all_keys = keys@;
    let ordered = sort_stable(keys, &KeyOrder);
    let (min, median_low, median_high, max) = if n == 0 {
        (None, None, None, None)
    } else {
        (
            Some(Score { key: ordered[0] }),
            Some(Score { key: ordered[(n - 1) / 2] }),
            Some(Score { key: ordered[n / 2] }),
            Some(Score { key: ordered[n - 1] }),
        )
    };
    let visible = visible_mask(rows, m);
    let (groups, largest) = count_cross_ties(rows, &visible);
    ScoreAudit {
        count: n,
        min,
        median_low,
        median_high,
        max,
        exact,
        rounded,
        clamp_count: count_clamped(rows),
        recommendation_index: summarize_recommendation_indices(rows, top),
        quality_top20_recommendation_index: summarize_recommendation_indices(
            rows,
            QUALITY_GATE_TOP,
        ),
        top20_exact: tally(&first_keys(rows, m, false)),
        top20_distinct_evidence_vectors: count_prints(rows, &full_mask(m)),
        top20_distinct_visible_evidence_vectors: count_prints(rows, &visible),
        top20_cross_vector_exact_tie_groups: groups,
        top20_largest_cross_vector_exact_tie: largest,
    }
}

} // verus!
