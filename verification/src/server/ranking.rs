//! Ranked candidates: the orders in which a feed can be sorted, the recall page of a
//! natural language request, and the index that a candidate is shown with.

use std::cmp::Ordering;
use std::collections::HashMap;

use vstd::prelude::*;
use vstd::std_specs::cmp::OrdSpec;

use crate::numbers::{decimal, u64_decimal};
use crate::score::Score;
use crate::server::feed_query::{FeedSort, FeedSortOrder};
use crate::sort::{
    at_most, chain, gather, gathered, last_position, lemma_picks_members, lemma_sorted_in_order,
    lemma_sorted_members, lemma_text_order_antisymmetric, lemma_text_order_transitive,
    pick_positions, picks, sort_stable, stable_sorted, text_comparison, text_order, Precedence,
};
use crate::text::{join3, opt_view, trimmed};

verus! {

broadcast use vstd::std_specs::hash::group_hash_axioms;

/// Fewer candidates than this have no percentile.
pub const MIN_INDEX_POOL_SIZE: usize = 10;

/// The key of `0.45`, the least confidence in the data that an index is shown for.
pub const MIN_INDEX_DATA_CONFIDENCE_KEY: i64 = 0x3fdc_cccc_cccc_cccd;

/// The fewest independent features that an index is shown for.
pub const MIN_INDEX_FEATURES: usize = 3;

/// What is shown of a game beside its ranking.
#[derive(Debug)]
pub struct FeedPresentation {
    pub release_date: Option<String>,
    pub release_date_raw: Option<String>,
    pub release_date_precision: Option<String>,
    pub cover_url: Option<String>,
    pub cover_updated_at_ms: Option<i64>,
    pub total_reviews: Option<u32>,
    pub total_positive: Option<u32>,
    pub latest_ccu: Option<u32>,
    pub typical_ccu_7d: Option<u32>,
    pub data_confidence: Score,
    pub effective_feature_count: usize,
    pub profile_observed_at_ms: Option<i64>,
    pub reviews_observed_at_ms: Option<i64>,
    pub activity_observed_at_ms: Option<i64>,
    pub price_observed_at_ms: Option<i64>,
    pub release_observed_at_ms: Option<i64>,
}

/// The parts of a ranking score.
#[derive(Debug, Clone, Copy, PartialEq, Eq, Structural)]
pub struct ScoreBreakdown {
    pub friend_fit: Score,
    pub section_score: Score,
    pub personalized_score: Score,
    pub group_fit: Score,
    pub mode_fit: Score,
    pub access_fit: Score,
    pub hosting_fit: Score,
    pub session_fit: Score,
    pub quality: Score,
    pub activity: Score,
    pub freshness: Score,
    pub risk: Score,
    pub relevance_score: Score,
    pub final_score: Score,
}

#[derive(Debug)]
pub struct Explanation {
    pub reasons: Vec<String>,
    pub cautions: Vec<String>,
    pub evidence_ids: Vec<String>,
}

/// Why a candidate holds its place.
#[derive(Debug, Clone, Copy, PartialEq, Eq, Structural)]
pub enum SlotReason {
    Base,
    Diversity,
    Explore,
}

#[derive(Debug)]
pub struct RankedCandidate {
    pub app_id: u32,
    pub name: String,
    pub dominant_mode: Option<String>,
    pub taxonomy_tags: Vec<String>,
    pub publisher: Option<String>,
    pub series: Option<String>,
    pub recommended_min: Option<u8>,
    pub recommended_max: Option<u8>,
    pub data_confidence: Score,
    pub score: ScoreBreakdown,
    pub explanation: Explanation,
    pub slot_reason: SlotReason,
    pub algorithm_version: String,
}

/// A ranked candidate with what is shown of it.
#[derive(Debug)]
pub struct FeedRow {
    pub candidate: RankedCandidate,
    pub presentation: Option<FeedPresentation>,
}

impl SlotReason {
    pub open spec fn name(self) -> Seq<char> {
        match self {
            SlotReason::Base => "base"@,
            SlotReason::Diversity => "diversity"@,
            SlotReason::Explore => "explore"@,
        }
    }
}

pub fn slot_reason_str(reason: SlotReason) -> (r: &'static str)
    ensures
        r@ == reason.name(),
{
    match reason {
        SlotReason::Base => "base",
        SlotReason::Diversity => "diversity",
        SlotReason::Explore => "explore",
    }
}

// ---------------------------------------------------------------------------
// Covers
// ---------------------------------------------------------------------------

pub open spec fn steam_cover(app_id: u32) -> Seq<char> {
    "https://cdn.akamai.steamstatic.com/steam/apps/"@ + decimal(app_id as nat) + "/header.jpg"@
}

pub fn steam_header_cover_url(app_id: u32) -> (r: String)
    ensures
        r@ == steam_cover(app_id),
{
    join3(
        "https://cdn.akamai.steamstatic.com/steam/apps/",
        u64_decimal(app_id as u64).as_str(),
        "/header.jpg",
    )
}

/// The game's own cover, or the store's header image where it has none.
pub open spec fn cover_of(app_id: u32, cover_url: Option<Seq<char>>) -> Seq<char> {
    match cover_url {
        Some(url) => if trimmed(url).len() > 0 {
            url
        } else {
            steam_cover(app_id)
        },
        None => steam_cover(app_id),
    }
}

pub fn resolve_feed_cover_url(app_id: u32, cover_url: Option<String>) -> (r: Option<String>)
    ensures
        opt_view(r) == Some(cover_of(app_id, opt_view(cover_url))),
{
    match cover_url {
        Some(url) => {
            if crate::text::is_blank(url.as_str()) {
                Some(steam_header_cover_url(app_id))
            } else {
                Some(url)
            }
        },
        None => Some(steam_header_cover_url(app_id)),
    }
}

// ---------------------------------------------------------------------------
// Percentile indices
// ---------------------------------------------------------------------------

/// The entries whose score is a finite number.
pub open spec fn finite_pool(scores: Seq<(u32, Score)>) -> Seq<(u32, Score)>
    decreases scores.len(),
{
    if scores.len() == 0 {
        Seq::empty()
    } else {
        let front = finite_pool(scores.drop_last());
        if scores.last().1.finite() {
            front.push(scores.last())
        } else {
            front
        }
    }
}

/// How many entries score higher than `key`.
pub open spec fn count_above(pool: Seq<(u32, Score)>, key: i64) -> nat
    decreases pool.len(),
{
    if pool.len() == 0 {
        0
    } else {
        count_above(pool.drop_last(), key) + if pool.last().1.key > key {
            1nat
        } else {
            0nat
        }
    }
}

/// How many entries score exactly `key`.
pub open spec fn count_tied(pool: Seq<(u32, Score)>, key: i64) -> nat
    decreases pool.len(),
{
    if pool.len() == 0 {
        0
    } else {
        count_tied(pool.drop_last(), key) + if pool.last().1.key == key {
            1nat
        } else {
            0nat
        }
    }
}

/// The percentile of a tie group in the middle of its ranks, rounded to the nearest
/// whole number, halves up: `above` candidates rank higher and `tied` share the place.
pub open spec fn midrank_percentile(total: nat, above: nat, tied: nat) -> int {
    (100 * (2 * total - 2 * above - tied) + total) / (2 * total as int)
}

/// The index of a score in a pool.
pub open spec fn index_in(pool: Seq<(u32, Score)>, key: i64) -> int {
    midrank_percentile(pool.len(), count_above(pool, key), count_tied(pool, key))
}

/// The entry at `i` is the lowest that its game has in the pool.
pub open spec fn lowest_of_game(pool: Seq<(u32, Score)>, i: int) -> bool {
    0 <= i < pool.len() && forall|j: int|
        0 <= j < pool.len() && (#[trigger] pool[j]).0 == pool[i].0 ==> pool[i].1.key
            <= pool[j].1.key
}

/// `m` gives every game of a large enough pool its index, and nothing else.
pub open spec fn is_index_map(m: Map<u32, u8>, scores: Seq<(u32, Score)>) -> bool {
    let pool = finite_pool(scores);
    if pool.len() < MIN_INDEX_POOL_SIZE {
        m == Map::<u32, u8>::empty()
    } else {
        &&& forall|id: u32| #[trigger] m.dom().contains(id) ==> exists|i: int|
            0 <= i < pool.len() && (#[trigger] pool[i]).0 == id
        &&& forall|i: int| 0 <= i < pool.len() ==> m.dom().contains((#[trigger] pool[i]).0)
        &&& forall|i: int|
            #![trigger pool[i]]
            lowest_of_game(pool, i) ==> m[pool[i].0] == index_in(pool, pool[i].1.key)
    }
}

proof fn lemma_counts(pool: Seq<(u32, Score)>, low: i64, high: i64)
    requires
        low < high,
    ensures
        count_above(pool, low) >= count_above(pool, high) + count_tied(pool, high),
        count_above(pool, low) + count_tied(pool, low) <= pool.len(),
        count_above(pool, high) + count_tied(pool, high) <= pool.len(),
    decreases pool.len(),
{
    if pool.len() > 0 {
        lemma_counts(pool.drop_last(), low, high);
    }
}

proof fn lemma_tied_positive(pool: Seq<(u32, Score)>, i: int)
    requires
        0 <= i < pool.len(),
    ensures
        count_tied(pool, pool[i].1.key) >= 1,
        count_above(pool, pool[i].1.key) + count_tied(pool, pool[i].1.key) <= pool.len(),
    decreases pool.len(),
{
    if i < pool.len() - 1 {
        lemma_tied_positive(pool.drop_last(), i);
        assert(pool.drop_last()[i] == pool[i]);
    } else {
        lemma_count_bound(pool.drop_last(), pool[i].1.key);
    }
}

proof fn lemma_count_bound(pool: Seq<(u32, Score)>, key: i64)
    ensures
        count_above(pool, key) + count_tied(pool, key) <= pool.len(),
    decreases pool.len(),
{
    if pool.len() > 0 {
        lemma_count_bound(pool.drop_last(), key);
    }
}

proof fn lemma_percentile_ordered(total: nat, above1: nat, tied1: nat, above2: nat, tied2: nat)
    requires
        total > 0,
        2 * above1 + tied1 <= 2 * above2 + tied2,
    ensures
        midrank_percentile(total, above2, tied2) <= midrank_percentile(total, above1, tied1),
{
    let x = 100 * (2 * total - 2 * above2 - tied2) + total;
    let y = 100 * (2 * total - 2 * above1 - tied1) + total;
    vstd::arithmetic::div_mod::lemma_div_is_ordered(x, y, 2 * total as int);
}

proof fn lemma_percentile_range(total: nat, above: nat, tied: nat)
    requires
        total > 0,
        tied >= 1,
        above + tied <= total,
    ensures
        0 <= midrank_percentile(total, above, tied) <= 100,
{
    let x = 100 * (2 * total - 2 * above - tied) + total;
    let d = 2 * total as int;
    assert(0 <= x <= 100 * d + d - 1) by {
        assert(2 * above + tied <= 2 * total);
    }
    vstd::arithmetic::div_mod::lemma_div_is_ordered(0, x, d);
    assert(x / d <= 100) by (nonlinear_arith)
        requires
            0 <= x <= 100 * d + d - 1,
            d > 0,
    ;
    assert(0int / d == 0) by (nonlinear_arith)
        requires
            d > 0,
    ;
}

/// Equal scores get equal indices, and a higher score never a lower index.
pub proof fn lemma_index_monotone(scores: Seq<(u32, Score)>, low: i64, high: i64)
    requires
        finite_pool(scores).len() > 0,
        low <= high,
    ensures
        index_in(finite_pool(scores), low) <= index_in(finite_pool(scores), high),
{
    let pool = finite_pool(scores);
    if low < high {
        lemma_counts(pool, low, high);
        lemma_percentile_ordered(
            pool.len(),
            count_above(pool, high),
            count_tied(pool, high),
            count_above(pool, low),
            count_tied(pool, low),
        );
    }
}

/// An index is a percentage.
pub proof fn lemma_index_is_percentage(scores: Seq<(u32, Score)>, i: int)
    requires
        0 <= i < finite_pool(scores).len(),
    ensures
        0 <= index_in(finite_pool(scores), finite_pool(scores)[i].1.key) <= 100,
{
    let pool = finite_pool(scores);
    lemma_tied_positive(pool, i);
    lemma_percentile_range(
        pool.len(),
        count_above(pool, pool[i].1.key),
        count_tied(pool, pool[i].1.key),
    );
}

fn pool_index(pool: &Vec<(u32, Score)>, at: usize) -> (r: u8)
    requires
        at < pool@.len(),
    ensures
        r == index_in(pool@, pool@[at as int].1.key),
{
    let key: i64 = pool[at].1.key;
    let n: usize = pool.len();
    let mut above: usize = 0;
    let mut tied: usize = 0;
    let mut i: usize = 0;
    while i < n
        invariant
            0 <= i <= n == pool@.len(),
            above == count_above(pool@.take(i as int), key),
            tied == count_tied(pool@.take(i as int), key),
            above + tied <= i,
        decreases n - i,
    {
        proof {
            let next = pool@.take(i + 1);
            assert(next.drop_last() =~= pool@.take(i as int));
            assert(next.last() == pool@[i as int]);
        }
        let other: i64 = pool[i].1.key;
        if other > key {
            above = above + 1;
        } else if other == key {
            tied = tied + 1;
        }
        i = i + 1;
    }
    proof {
        assert(pool@.take(n as int) =~= pool@);
        lemma_tied_positive(pool@, at as int);
        lemma_percentile_range(n as nat, above as nat, tied as nat);
    }
    let t: u128 = n as u128;
    let numerator: u128 = 100 * (2 * t - 2 * (above as u128) - tied as u128) + t;
    let index: u128 = numerator / (2 * t);
    index as u8
}

/// The percentile index of each game among the finite scores, where there are enough
/// of them. A game that occurs more than once has the index of its lowest score.
pub fn context_percentile_indices(scores: &Vec<(u32, Score)>) -> (r: HashMap<u32, u8>)
    ensures
        is_index_map(r@, scores@),
{
    let mut pool: Vec<(u32, Score)> = Vec::new();
    let mut i: usize = 0;
    assert(scores@.take(0) =~= Seq::empty());
    while i < scores.len()
        invariant
            0 <= i <= scores@.len(),
            pool@ == finite_pool(scores@.take(i as int)),
        decreases scores@.len() - i,
    {
        proof {
            let next = scores@.take(i + 1);
            assert(next.drop_last() =~= scores@.take(i as int));
            assert(next.last() == scores@[i as int]);
        }
        let entry: (u32, Score) = scores[i];
        if entry.1.is_finite() {
            pool.push(entry);
        }
        i = i + 1;
    }
    assert(scores@.take(scores@.len() as int) =~= scores@);
    let mut indices: HashMap<u32, u8> = HashMap::new();
    if pool.len() < MIN_INDEX_POOL_SIZE {
        return indices;
    }
    let n: usize = pool.len();
    let mut k: usize = 0;
    while k < n
        invariant
            0 <= k <= n == pool@.len(),
            n >= MIN_INDEX_POOL_SIZE,
            pool@ == finite_pool(scores@),
            forall|j: int|
                0 <= j < k ==> indices@.dom().contains((#[trigger] pool@[j]).0)
                    && indices@[pool@[j].0] <= index_in(pool@, pool@[j].1.key),
            forall|id: u32| #[trigger]
                indices@.dom().contains(id) ==> exists|j: int|
                    0 <= j < k && (#[trigger] pool@[j]).0 == id && indices@[id] == index_in(
                        pool@,
                        pool@[j].1.key,
                    ),
        decreases n - k,
    {
        let index: u8 = pool_index(&pool, k);
        let id: u32 = pool[k].0;
        let keep = match indices.get(&id) {
            Some(old) => *old <= index,
            None => false,
        };
        let ghost before = indices@;
        if !keep {
            indices.insert(id, index);
            proof {
                assert(pool@[k as int].0 == id);
                assert forall|x: u32| #[trigger] indices@.dom().contains(x) implies exists|j: int|
                    0 <= j < k + 1 && (#[trigger] pool@[j]).0 == x && indices@[x] == index_in(
                        pool@,
                        pool@[j].1.key,
                    ) by {
                    if x != id {
                        assert(before.dom().contains(x));
                    }
                }
            }
        }
        k = k + 1;
    }
    proof {
        let p = pool@;
        assert forall|x: int| #![trigger p[x]] lowest_of_game(p, x) implies indices@[p[x].0] == index_in(
            p,
            p[x].1.key,
        ) by {
            let id = p[x].0;
            let j = choose|j: int|
                0 <= j < n && (#[trigger] p[j]).0 == id && indices@[id] == index_in(p, p[j].1.key);
            assert(p[x].1.key <= p[j].1.key);
            lemma_index_monotone(scores@, p[x].1.key, p[j].1.key);
        }
    }
    indices
}

/// The entries from `offset` on, at most `limit` of them.
pub open spec fn window<T>(s: Seq<T>, offset: nat, limit: nat) -> Seq<T> {
    let from = if offset <= s.len() {
        offset as int
    } else {
        s.len() as int
    };
    let to = if from + limit <= s.len() {
        from + limit
    } else {
        s.len() as int
    };
    s.subrange(from, to)
}

/// The indices inside the exact response window: they compare what was returned, not
/// the whole catalogue.
pub fn context_percentile_indices_for_window(
    scores: &Vec<(u32, Score)>,
    offset: usize,
    limit: usize,
) -> (r: HashMap<u32, u8>)
    ensures
        is_index_map(r@, window(scores@, offset as nat, limit as nat)),
{
    let n: usize = scores.len();
    let from: usize = if offset <= n {
        offset
    } else {
        n
    };
    let to: usize = if limit <= n - from {
        from + limit
    } else {
        n
    };
    let mut part: Vec<(u32, Score)> = Vec::new();
    let mut i: usize = from;
    while i < to
        invariant
            from <= i <= to <= n == scores@.len(),
            part@ == scores@.subrange(from as int, i as int),
        decreases to - i,
    {
        part.push(scores[i]);
        i = i + 1;
        assert(part@ =~= scores@.subrange(from as int, i as int));
    }
    context_percentile_indices(&part)
}

/// Enough is known about the game for its index to be shown.
pub open spec fn index_eligible(presentation: FeedPresentation) -> bool {
    presentation.data_confidence.at_least(Score { key: MIN_INDEX_DATA_CONFIDENCE_KEY })
        && presentation.effective_feature_count >= MIN_INDEX_FEATURES
}

pub fn recommendation_index_is_eligible(presentation: &FeedPresentation) -> (r: bool)
    ensures
        r == index_eligible(*presentation),
{
    presentation.data_confidence.reaches(Score { key: MIN_INDEX_DATA_CONFIDENCE_KEY })
        && presentation.effective_feature_count >= MIN_INDEX_FEATURES
}

pub open spec fn visible_index(
    app_id: u32,
    indices: Map<u32, u8>,
    presentation: Option<FeedPresentation>,
) -> Option<u8> {
    match presentation {
        Some(p) => if index_eligible(p) && indices.dom().contains(app_id) {
            Some(indices[app_id])
        } else {
            None
        },
        None => None,
    }
}

/// The index that is shown: none where the evidence is thin.
pub fn visible_recommendation_index(
    app_id: u32,
    indices: &HashMap<u32, u8>,
    presentation: Option<&FeedPresentation>,
) -> (r: Option<u8>)
    ensures
        r == visible_index(
            app_id,
            indices@,
            match presentation {
                Some(p) => Some(*p),
                None => None,
            },
        ),
{
    match presentation {
        Some(p) => {
            if recommendation_index_is_eligible(p) {
                match indices.get(&app_id) {
                    Some(index) => Some(*index),
                    None => None,
                }
            } else {
                None
            }
        },
        None => None,
    }
}

pub open spec fn fit_band_name(index: Option<u8>) -> Seq<char> {
    match index {
        Some(i) => if i >= 80 {
            "excellent"@
        } else if i >= 60 {
            "good"@
        } else {
            "consider"@
        },
        None => "insufficient_data"@,
    }
}

pub fn fit_band(index: Option<u8>) -> (r: &'static str)
    ensures
        r@ == fit_band_name(index),
{
    match index {
        Some(i) => {
            if i >= 80 {
                "excellent"
            } else if i >= 60 {
                "good"
            } else {
                "consider"
            }
        },
        None => "insufficient_data",
    }
}

// ---------------------------------------------------------------------------
// Orders
// ---------------------------------------------------------------------------

/// Optional values in the given direction; whatever the direction, those that are
/// missing come last.
pub open spec fn missing_last(left: Option<int>, right: Option<int>, order: FeedSortOrder) -> int {
    match (left, right) {
        (None, None) => 0,
        (None, Some(_)) => 1,
        (Some(_), None) => -1,
        (Some(l), Some(r)) => if order is Asc {
            l - r
        } else {
            r - l
        },
    }
}

/// As `missing_last`, for texts.
pub open spec fn missing_text_last(
    left: Option<Seq<char>>,
    right: Option<Seq<char>>,
    order: FeedSortOrder,
) -> int {
    match (left, right) {
        (None, None) => 0,
        (None, Some(_)) => 1,
        (Some(_), None) => -1,
        (Some(l), Some(r)) => if order is Asc {
            text_order(l, r)
        } else {
            text_order(r, l)
        },
    }
}

pub fn compare_optional_missing_last<T: Ord>(
    left: Option<T>,
    right: Option<T>,
    order: FeedSortOrder,
) -> (r: Ordering)
    ensures
        left is None && right is None ==> r is Equal,
        left is None && right is Some ==> r is Greater,
        left is Some && right is None ==> r is Less,
        left is Some && right is Some && order is Asc && T::obeys_cmp_spec() ==> r
            == left->0.cmp_spec(&right->0),
        left is Some && right is Some && order is Desc && T::obeys_cmp_spec() ==> r
            == right->0.cmp_spec(&left->0),
{
    match (left, right) {
        (None, None) => Ordering::Equal,
        (None, Some(_)) => Ordering::Greater,
        (Some(_), None) => Ordering::Less,
        (Some(left), Some(right)) => match order {
            FeedSortOrder::Asc => left.cmp(&right),
            FeedSortOrder::Desc => right.cmp(&left),
        },
    }
}

pub open spec fn opt_int(value: Option<u32>) -> Option<int> {
    match value {
        Some(v) => Some(v as int),
        None => None,
    }
}

/// `compare_optional_missing_last` on counts, as a sign.
fn count_comparison(left: Option<u32>, right: Option<u32>, order: FeedSortOrder) -> (r: i8)
    ensures
        r < 0 <==> missing_last(opt_int(left), opt_int(right), order) < 0,
        r == 0 <==> missing_last(opt_int(left), opt_int(right), order) == 0,
{
    match compare_optional_missing_last(left, right, order) {
        Ordering::Less => -1,
        Ordering::Equal => 0,
        Ordering::Greater => 1,
    }
}

fn date_comparison(left: Option<&str>, right: Option<&str>, order: FeedSortOrder) -> (r: i8)
    ensures
        r < 0 <==> missing_text_last(
            crate::text::str_view(left),
            crate::text::str_view(right),
            order,
        ) < 0,
        r == 0 <==> missing_text_last(
            crate::text::str_view(left),
            crate::text::str_view(right),
            order,
        ) == 0,
{
    match (left, right) {
        (None, None) => 0,
        (None, Some(_)) => 1,
        (Some(_), None) => -1,
        (Some(l), Some(r)) => match order {
            FeedSortOrder::Asc => text_comparison(l, r),
            FeedSortOrder::Desc => text_comparison(r, l),
        },
    }
}

impl FeedRow {
    pub open spec fn eligible(self) -> bool {
        self.presentation matches Some(p) && index_eligible(p)
    }

    pub open spec fn relevance(self) -> int {
        self.candidate.score.relevance_score.key as int
    }

    /// The typical player count of a week, or else the latest one.
    pub open spec fn players(self) -> Option<int> {
        match self.presentation {
            Some(p) => if p.typical_ccu_7d is Some {
                opt_int(p.typical_ccu_7d)
            } else {
                opt_int(p.latest_ccu)
            },
            None => None,
        }
    }

    pub open spec fn reviews(self) -> Option<int> {
        match self.presentation {
            Some(p) => opt_int(p.total_reviews),
            None => None,
        }
    }

    pub open spec fn date(self) -> Option<Seq<char>> {
        match self.presentation {
            Some(p) => match p.release_date {
                Some(date) => if date@.len() > 0 {
                    Some(date@)
                } else {
                    None
                },
                None => None,
            },
            None => None,
        }
    }

    fn is_eligible(&self) -> (r: bool)
        ensures
            r == self.eligible(),
    {
        match &self.presentation {
            Some(p) => recommendation_index_is_eligible(p),
            None => false,
        }
    }

    fn player_count(&self) -> (r: Option<u32>)
        ensures
            opt_int(r) == self.players(),
    {
        match &self.presentation {
            Some(p) => match p.typical_ccu_7d {
                Some(count) => Some(count),
                None => p.latest_ccu,
            },
            None => None,
        }
    }

    fn review_count(&self) -> (r: Option<u32>)
        ensures
            opt_int(r) == self.reviews(),
    {
        match &self.presentation {
            Some(p) => p.total_reviews,
            None => None,
        }
    }

    fn release_day(&self) -> (r: Option<&str>)
        ensures
            crate::text::str_view(r) == self.date(),
    {
        match &self.presentation {
            Some(p) => match &p.release_date {
                Some(date) => {
                    if date.as_str().is_empty() {
                        None
                    } else {
                        Some(date.as_str())
                    }
                },
                None => None,
            },
            None => None,
        }
    }
}

/// Rows with enough evidence before the others; within each group by relevance.
pub open spec fn recommendation_score_order(a: FeedRow, b: FeedRow, order: FeedSortOrder) -> int {
    if a.eligible() && !b.eligible() {
        -1
    } else if !a.eligible() && b.eligible() {
        1
    } else if order is Asc {
        a.relevance() - b.relevance()
    } else {
        b.relevance() - a.relevance()
    }
}

/// `recommendation_score_order` as a sign.
pub fn compare_recommendation_score(left: &FeedRow, right: &FeedRow, order: FeedSortOrder) -> (r: i8)
    ensures
        r < 0 <==> recommendation_score_order(*left, *right, order) < 0,
        r == 0 <==> recommendation_score_order(*left, *right, order) == 0,
{
    let left_eligible = left.is_eligible();
    let right_eligible = right.is_eligible();
    if left_eligible && !right_eligible {
        return -1;
    }
    if !left_eligible && right_eligible {
        return 1;
    }
    let l: i64 = left.candidate.score.relevance_score.key;
    let r: i64 = right.candidate.score.relevance_score.key;
    let (first, second): (i64, i64) = match order {
        FeedSortOrder::Asc => (l, r),
        FeedSortOrder::Desc => (r, l),
    };
    if first < second {
        -1
    } else if first == second {
        0
    } else {
        1
    }
}

/// The order of a feed: by the chosen value, then by the higher final score, then by
/// the lower application identifier.
pub struct FeedOrder {
    pub sort: FeedSort,
    pub order: FeedSortOrder,
}

impl FeedOrder {
    pub open spec fn primary(self, a: FeedRow, b: FeedRow) -> int {
        match self.sort {
            FeedSort::Recommended => recommendation_score_order(a, b, FeedSortOrder::Desc),
            FeedSort::FitIndex => recommendation_score_order(a, b, self.order),
            FeedSort::Ccu => missing_last(a.players(), b.players(), self.order),
            FeedSort::Reviews => missing_last(a.reviews(), b.reviews(), self.order),
            FeedSort::ReleaseDate => missing_text_last(a.date(), b.date(), self.order),
        }
    }

    pub open spec fn whole(self, a: FeedRow, b: FeedRow) -> int {
        chain(
            self.primary(a, b),
            chain(
                b.candidate.score.final_score.value_rank() - a.candidate.score.final_score.value_rank(),
                a.candidate.app_id - b.candidate.app_id,
            ),
        )
    }

    proof fn lemma_primary(self, a: FeedRow, b: FeedRow, c: FeedRow)
        ensures
            self.primary(a, b) < 0 <==> self.primary(b, a) > 0,
            self.primary(a, b) == 0 <==> self.primary(b, a) == 0,
            self.primary(a, b) <= 0 && self.primary(b, c) <= 0 ==> self.primary(a, c) <= 0,
            self.primary(a, b) <= 0 && self.primary(b, c) <= 0 && self.primary(a, c) == 0
                ==> self.primary(a, b) == 0 && self.primary(b, c) == 0,
    {
        if self.sort is ReleaseDate {
            if a.date() is Some && b.date() is Some {
                lemma_text_order_antisymmetric(a.date()->0, b.date()->0);
                if c.date() is Some {
                    let (x, y, z) = (a.date()->0, b.date()->0, c.date()->0);
                    if text_order(x, y) <= 0 && text_order(y, z) <= 0 {
                        lemma_text_order_transitive(x, y, z);
                    }
                    if text_order(z, y) <= 0 && text_order(y, x) <= 0 {
                        lemma_text_order_transitive(z, y, x);
                    }
                }
            }
        }
    }

    fn primary_comparison(&self, a: &FeedRow, b: &FeedRow) -> (r: i8)
        ensures
            r < 0 <==> self.primary(*a, *b) < 0,
            r == 0 <==> self.primary(*a, *b) == 0,
    {
        match self.sort {
            FeedSort::Recommended => compare_recommendation_score(a, b, FeedSortOrder::Desc),
            FeedSort::FitIndex => compare_recommendation_score(a, b, self.order),
            FeedSort::Ccu => count_comparison(a.player_count(), b.player_count(), self.order),
            FeedSort::Reviews => count_comparison(a.review_count(), b.review_count(), self.order),
            FeedSort::ReleaseDate => date_comparison(a.release_day(), b.release_day(), self.order),
        }
    }
}

impl Precedence<FeedRow> for FeedOrder {
    /// A final score that is not a number has no place.
    open spec fn orders(&self, item: FeedRow) -> bool {
        item.candidate.score.final_score.is_number()
    }

    open spec fn precedes(&self, a: FeedRow, b: FeedRow) -> bool {
        self.whole(a, b) <= 0
    }

    proof fn lemma_total(&self, a: FeedRow, b: FeedRow) {
        self.lemma_primary(a, b, a);
    }

    proof fn lemma_transitive(&self, a: FeedRow, b: FeedRow, c: FeedRow) {
        self.lemma_primary(a, b, c);
    }

    fn may_precede(&self, a: &FeedRow, b: &FeedRow) -> (r: bool) {
        let primary: i8 = self.primary_comparison(a, b);
        if primary != 0 {
            return primary < 0;
        }
        let left: Score = a.candidate.score.final_score;
        let right: Score = b.candidate.score.final_score;
        if !left.reaches(right) {
            return false;
        }
        if !right.reaches(left) {
            return true;
        }
        a.candidate.app_id <= b.candidate.app_id
    }
}

/// Every final score is a number.
pub open spec fn sortable(rows: Seq<FeedRow>) -> bool {
    forall|i: int| 0 <= i < rows.len() ==> (#[trigger] rows[i]).candidate.score.final_score.is_number()
}

/// Puts the rows of a feed in the order that was asked for.
pub fn apply_feed_sort(items: Vec<FeedRow>, sort: FeedSort, order: FeedSortOrder) -> (r: Vec<
    FeedRow,
>)
    requires
        sortable(items@),
    ensures
        r@ == stable_sorted(items@, &(FeedOrder { sort, order })),
        crate::sort::in_order(r@, &(FeedOrder { sort, order })),
        r@.to_multiset() == items@.to_multiset(),
        r@.len() == items@.len(),
        sortable(r@),
{
    let by = FeedOrder { sort, order };
    let sorted = sort_stable(items, &by);
    proof {
        lemma_sorted_in_order(items@, &by);
        assert forall|i: int| 0 <= i < sorted@.len() implies (
        #[trigger] sorted@[i]).candidate.score.final_score.is_number() by {
            assert(by.orders(stable_sorted(items@, &by)[i]));
        }
    }
    sorted
}

/// Rows without a value come after those with one, in both directions.
pub proof fn lemma_missing_values_are_last(
    a: FeedRow,
    b: FeedRow,
    sort: FeedSort,
    order: FeedSortOrder,
)
    requires
        (sort is Ccu && a.players() is Some && b.players() is None) || (sort is Reviews
            && a.reviews() is Some && b.reviews() is None) || (sort is ReleaseDate
            && a.date() is Some && b.date() is None),
    ensures
        (FeedOrder { sort, order }).precedes(a, b),
        !(FeedOrder { sort, order }).precedes(b, a),
{
}

/// The recommended ranking and the ranking by index in descending order are the same.
pub proof fn lemma_recommended_is_descending_index(a: FeedRow, b: FeedRow, order: FeedSortOrder)
    ensures
        (FeedOrder { sort: FeedSort::Recommended, order }).whole(a, b) == (FeedOrder {
            sort: FeedSort::FitIndex,
            order: FeedSortOrder::Desc,
        }).whole(a, b),
{
}

// ---------------------------------------------------------------------------
// Internal recall
// ---------------------------------------------------------------------------

/// Strict relevance: the higher relevance, then the higher confidence, then the lower
/// application identifier.
pub struct RelevanceOrder;

impl RelevanceOrder {
    pub open spec fn whole(a: FeedRow, b: FeedRow) -> int {
        chain(
            b.relevance() - a.relevance(),
            chain(
                b.candidate.data_confidence.key - a.candidate.data_confidence.key,
                a.candidate.app_id - b.candidate.app_id,
            ),
        )
    }
}

impl Precedence<FeedRow> for RelevanceOrder {
    open spec fn orders(&self, item: FeedRow) -> bool {
        true
    }

    open spec fn precedes(&self, a: FeedRow, b: FeedRow) -> bool {
        RelevanceOrder::whole(a, b) <= 0
    }

    proof fn lemma_total(&self, a: FeedRow, b: FeedRow) {
    }

    proof fn lemma_transitive(&self, a: FeedRow, b: FeedRow, c: FeedRow) {
    }

    fn may_precede(&self, a: &FeedRow, b: &FeedRow) -> (r: bool) {
        let left: i64 = a.candidate.score.relevance_score.key;
        let right: i64 = b.candidate.score.relevance_score.key;
        if left != right {
            return left > right;
        }
        let left_confidence: i64 = a.candidate.data_confidence.key;
        let right_confidence: i64 = b.candidate.data_confidence.key;
        if left_confidence != right_confidence {
            return left_confidence > right_confidence;
        }
        a.candidate.app_id <= b.candidate.app_id
    }
}

pub open spec fn row_ids(rows: Seq<FeedRow>) -> Seq<u32> {
    rows.map_values(|row: FeedRow| row.candidate.app_id)
}

/// The page that an internal recall selects: first what retrieval found, then the most
/// relevant rest, as far as the limit goes.
pub open spec fn recall_ids(rows: Seq<FeedRow>, retrieval: Seq<u32>, limit: nat) -> Seq<u32> {
    let ranked = stable_sorted(rows, &RelevanceOrder);
    at_most(picks(retrieval + row_ids(ranked), row_ids(ranked)), limit)
}

/// Nothing that was filtered out before can come back: every selected row is one of
/// the ranked rows, no game is selected twice, and the limit holds.
pub proof fn lemma_recall_only_selects(rows: Seq<FeedRow>, retrieval: Seq<u32>, limit: nat)
    ensures
        recall_ids(rows, retrieval, limit).len() <= limit,
        recall_ids(rows, retrieval, limit).no_duplicates(),
        forall|id: u32| #[trigger]
            recall_ids(rows, retrieval, limit).contains(id) ==> row_ids(rows).contains(id),
{
    let ranked = stable_sorted(rows, &RelevanceOrder);
    let wanted = retrieval + row_ids(ranked);
    lemma_picks_members(wanted, row_ids(ranked));
    let all = picks(wanted, row_ids(ranked));
    let ids = recall_ids(rows, retrieval, limit);
    lemma_sorted_members(rows, &RelevanceOrder);
    assert forall|id: u32| #[trigger] ids.contains(id) implies row_ids(rows).contains(id) by {
        let i = choose|i: int| 0 <= i < ids.len() && ids[i] == id;
        assert(all[i] == id);
        assert(all.contains(id));
        let k = choose|k: int| 0 <= k < row_ids(ranked).len() && row_ids(ranked)[k] == id;
        assert(ranked.contains(ranked[k]));
        assert(rows.contains(ranked[k]));
        let j = choose|j: int| 0 <= j < rows.len() && rows[j] == ranked[k];
        assert(row_ids(rows)[j] == id);
    }
}

pub open spec fn all_among(rows: Seq<FeedRow>, ranked: Seq<FeedRow>) -> bool {
    forall|i: int| 0 <= i < rows.len() ==> ranked.contains(#[trigger] rows[i])
}

/// Selects the recall page of a natural language request from the complete ranked
/// section. Identifiers that retrieval found count only where they survived filtering
/// and ranking; the remaining room is filled by strict relevance.
pub fn select_internal_recall_candidates(
    ranked: Vec<FeedRow>,
    retrieval_ids: &Vec<u32>,
    limit: usize,
) -> (r: Vec<FeedRow>)
    ensures
        row_ids(r@) == recall_ids(ranked@, retrieval_ids@, limit as nat),
        forall|i: int|
            0 <= i < r@.len() ==> ({
                let sorted = stable_sorted(ranked@, &RelevanceOrder);
                let p = last_position(row_ids(sorted), (#[trigger] r@[i]).candidate.app_id);
                p is Some && 0 <= p->0 < sorted.len() && r@[i] == sorted[p->0]
            }),
        all_among(r@, ranked@),
{
    let ghost input = ranked@;
    let by = RelevanceOrder;
    let pool = sort_stable(ranked, &by);
    let ghost sorted = pool@;
    let mut wanted: Vec<u32> = Vec::new();
    let mut available: Vec<u32> = Vec::new();
    let mut i: usize = 0;
    while i < retrieval_ids.len()
        invariant
            0 <= i <= retrieval_ids@.len(),
            wanted@ == retrieval_ids@.take(i as int),
        decreases retrieval_ids@.len() - i,
    {
        wanted.push(retrieval_ids[i]);
        i = i + 1;
        assert(wanted@ =~= retrieval_ids@.take(i as int));
    }
    assert(retrieval_ids@.take(i as int) =~= retrieval_ids@);
    let mut j: usize = 0;
    while j < pool.len()
        invariant
            0 <= j <= pool@.len(),
            pool@ == sorted,
            wanted@ == retrieval_ids@ + row_ids(sorted).take(j as int),
            available@ == row_ids(sorted).take(j as int),
        decreases pool@.len() - j,
    {
        let id: u32 = pool[j].candidate.app_id;
        wanted.push(id);
        available.push(id);
        j = j + 1;
        assert(wanted@ =~= retrieval_ids@ + row_ids(sorted).take(j as int));
        assert(available@ =~= row_ids(sorted).take(j as int));
    }
    assert(row_ids(sorted).take(j as int) =~= row_ids(sorted));
    let positions = pick_positions(&wanted, &available, limit);
    let selected = gather(pool, &positions);
    proof {
        assert(row_ids(selected@) =~= gathered(available@, positions@));
        lemma_sorted_members(input, &by);
        assert forall|n: int| 0 <= n < selected@.len() implies input.contains(
            #[trigger] selected@[n],
        ) by {
            assert(sorted.contains(sorted[positions@[n] as int]));
        }
        assert forall|n: int| 0 <= n < selected@.len() implies ({
            let p = last_position(row_ids(sorted), (#[trigger] selected@[n]).candidate.app_id);
            p is Some && 0 <= p->0 < sorted.len() && selected@[n] == sorted[p->0]
        }) by {
            assert(available@[positions@[n] as int] == selected@[n].candidate.app_id);
        }
    }
    selected
}

}
