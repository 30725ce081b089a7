//! The audit of a ranking: how its scores spread and tie, which indices it shows, and how
//! different the evidence behind equal scores is. Shares are given as counts.

use vstd::prelude::*;

use crate::dbtool::tally::{distinct_before, largest_before, tally};
use crate::score::Score;
use crate::server::ranking::{
    context_percentile_indices, finite_pool, index_in, is_index_map, lowest_of_game, SlotReason,
    MIN_INDEX_DATA_CONFIDENCE_KEY, MIN_INDEX_FEATURES, MIN_INDEX_POOL_SIZE,
};
use crate::text::{opt_view, views};

verus! {

/// How many places the quality gates look at.
pub const QUALITY_GATE_TOP: usize = 20;

/// What decides whether the index of a game is shown.
#[derive(Debug, Clone, Copy, PartialEq, Eq, Structural)]
pub struct IndexEligibility {
    pub data_confidence: Score,
    pub effective_feature_count: usize,
}

impl IndexEligibility {
    pub open spec fn admits(self) -> bool {
        self.data_confidence.at_least(Score { key: MIN_INDEX_DATA_CONFIDENCE_KEY })
            && self.effective_feature_count >= MIN_INDEX_FEATURES
    }

    pub fn is_admitted(&self) -> (r: bool)
        ensures
            r == self.admits(),
    {
        self.data_confidence.reaches(Score { key: MIN_INDEX_DATA_CONFIDENCE_KEY })
            && self.effective_feature_count >= MIN_INDEX_FEATURES
    }
}

/// The features that are behind a score. Equal features give equal scores; equal scores of
/// different features are a tie that says nothing.
#[derive(Debug)]
pub struct EffectiveFeatureFingerprint {
    pub score_components: Vec<Score>,
    pub mode: Option<String>,
    pub taxonomy_tags: Vec<String>,
    pub publisher: Option<String>,
    pub series: Option<String>,
    pub recommended_min: Option<u8>,
    pub recommended_max: Option<u8>,
}

pub open spec fn same_fingerprint(
    a: EffectiveFeatureFingerprint,
    b: EffectiveFeatureFingerprint,
) -> bool {
    &&& a.score_components@ == b.score_components@
    &&& opt_view(a.mode) == opt_view(b.mode)
    &&& views(a.taxonomy_tags@) == views(b.taxonomy_tags@)
    &&& opt_view(a.publisher) == opt_view(b.publisher)
    &&& opt_view(a.series) == opt_view(b.series)
    &&& a.recommended_min == b.recommended_min
    &&& a.recommended_max == b.recommended_max
}

/// A ranked game, as far as the audit looks at it. `rounded_100` is a hundred times its
/// relevance, rounded; `mode` the name of its mode family, where that is known.
#[derive(Debug)]
pub struct AuditRow {
    pub app_id: u32,
    pub relevance: Score,
    pub rounded_100: i64,
    pub eligibility: Option<IndexEligibility>,
    pub fingerprint: Option<EffectiveFeatureFingerprint>,
    pub mode: Option<String>,
    pub slot_reason: SlotReason,
    pub evidence_ids: Vec<String>,
}

// ---------------------------------------------------------------------------
// Indices
// ---------------------------------------------------------------------------

pub open spec fn scores_of(rows: Seq<AuditRow>) -> Seq<(u32, Score)> {
    rows.map_values(|row: AuditRow| (row.app_id, row.relevance))
}

/// The lowest score that a game has.
pub open spec fn game_score(pool: Seq<(u32, Score)>, id: u32) -> Option<i64>
    decreases pool.len(),
{
    if pool.len() == 0 {
        None
    } else {
        let front = game_score(pool.drop_last(), id);
        if pool.last().0 != id {
            front
        } else {
            match front {
                Some(key) => if key <= pool.last().1.key {
                    Some(key)
                } else {
                    Some(pool.last().1.key)
                },
                None => Some(pool.last().1.key),
            }
        }
    }
}

/// The index of a game among others.
pub open spec fn game_index(scores: Seq<(u32, Score)>, id: u32) -> Option<int> {
    let pool = finite_pool(scores);
    if pool.len() < MIN_INDEX_POOL_SIZE {
        None
    } else {
        match game_score(pool, id) {
            Some(key) => Some(index_in(pool, key)),
            None => None,
        }
    }
}

proof fn lemma_game_score(pool: Seq<(u32, Score)>, id: u32)
    ensures
        match game_score(pool, id) {
            Some(key) => exists|i: int|
                lowest_of_game(pool, i) && (#[trigger] pool[i]).0 == id && pool[i].1.key == key,
            None => forall|i: int| 0 <= i < pool.len() ==> (#[trigger] pool[i]).0 != id,
        },
    decreases pool.len(),
{
    if pool.len() > 0 {
        let front = pool.drop_last();
        lemma_game_score(front, id);
        let last = pool.len() - 1;
        match game_score(front, id) {
            Some(key) => {
                let i = choose|i: int|
                    lowest_of_game(front, i) && (#[trigger] front[i]).0 == id && front[i].1.key
                        == key;
                assert(pool[i] == front[i]);
                if pool[last].0 == id && pool[last].1.key < key {
                    assert forall|j: int| 0 <= j < pool.len() && (#[trigger] pool[j]).0
                        == pool[last].0 implies pool[last].1.key <= pool[j].1.key by {
                        if j < last {
                            assert(front[j] == pool[j]);
                        }
                    }
                    assert(lowest_of_game(pool, last) && pool[last].0 == id);
                } else {
                    assert forall|j: int| 0 <= j < pool.len() && (#[trigger] pool[j]).0
                        == pool[i].0 implies pool[i].1.key <= pool[j].1.key by {
                        if j < last {
                            assert(front[j] == pool[j]);
                        }
                    }
                    assert(lowest_of_game(pool, i) && pool[i].0 == id);
                }
            },
            None => {
                if pool[last].0 == id {
                    assert forall|j: int| 0 <= j < pool.len() && (#[trigger] pool[j]).0
                        == pool[last].0 implies pool[last].1.key <= pool[j].1.key by {
                        if j < last {
                            assert(front[j] == pool[j]);
                        }
                    }
                    assert(lowest_of_game(pool, last) && pool[last].0 == id);
                } else {
                    assert forall|i: int| 0 <= i < pool.len() implies (#[trigger] pool[i]).0
                        != id by {
                        if i < last {
                            assert(front[i] == pool[i]);
                        }
                    }
                }
            },
        }
    }
}

proof fn lemma_index_map(m: Map<u32, u8>, scores: Seq<(u32, Score)>, id: u32)
    requires
        is_index_map(m, scores),
    ensures
        game_index(scores, id) == (if m.contains_key(id) {
            Some(m[id] as int)
        } else {
            None
        }),
{
    let pool = finite_pool(scores);
    lemma_game_score(pool, id);
    if pool.len() >= MIN_INDEX_POOL_SIZE {
        match game_score(pool, id) {
            Some(key) => {
                let i = choose|i: int|
                    lowest_of_game(pool, i) && (#[trigger] pool[i]).0 == id && pool[i].1.key == key;
                assert(m.dom().contains(pool[i].0));
                assert(m[pool[i].0] == index_in(pool, pool[i].1.key));
            },
            None => {
                if m.dom().contains(id) {
                    let i = choose|i: int| 0 <= i < pool.len() && (#[trigger] pool[i]).0 == id;
                }
            },
        }
    }
}

/// The index that is shown of the game at `i` when these games are shown together.
pub open spec fn shown_index(rows: Seq<AuditRow>, i: int) -> Option<int> {
    match rows[i].eligibility {
        Some(e) => if e.admits() {
            game_index(scores_of(rows), rows[i].app_id)
        } else {
            None
        },
        None => None,
    }
}

pub open spec fn as_ints(seen: Seq<Option<u8>>) -> Seq<Option<int>> {
    seen.map_values(
        |v: Option<u8>|
            match v {
                Some(x) => Some(x as int),
                None => None,
            },
    )
}

/// The indices that are shown of the first rows.
pub open spec fn shown_indices(rows: Seq<AuditRow>) -> Seq<Option<int>> {
    Seq::new(rows.len(), |i: int| shown_index(rows, i))
}

pub fn visible_indices(rows: &Vec<AuditRow>, count: usize) -> (r: Vec<Option<u8>>)
    requires
        count <= rows@.len(),
    ensures
        as_ints(r@) == shown_indices(rows@.take(count as int)),
        r@.len() == count,
{
    broadcast use vstd::std_specs::hash::group_hash_axioms;

    let ghost window = rows@.take(count as int);
    let mut scores: Vec<(u32, Score)> = Vec::new();
    let mut i: usize = 0;
    while i < count
        invariant
            0 <= i <= count <= rows@.len(),
            scores@.len() == i,
            forall|j: int|
                0 <= j < i ==> #[trigger] scores@[j] == (rows@[j].app_id, rows@[j].relevance),
        decreases count - i,
    {
        scores.push((rows[i].app_id, rows[i].relevance));
        i = i + 1;
    }
    assert(scores@ =~= scores_of(window));
    let indices = context_percentile_indices(&scores);
    let mut out: Vec<Option<u8>> = Vec::new();
    let mut k: usize = 0;
    while k < count
        invariant
            0 <= k <= count <= rows@.len(),
            window == rows@.take(count as int),
            scores@ == scores_of(window),
            is_index_map(indices@, scores@),
            out@.len() == k,
            forall|j: int|
                0 <= j < k ==> (match #[trigger] out@[j] {
                    Some(x) => Some(x as int),
                    None => None,
                }) == shown_index(window, j),
        decreases count - k,
    {
        broadcast use vstd::std_specs::hash::group_hash_axioms;

        let shown = match rows[k].eligibility {
            Some(e) => e.is_admitted(),
            None => false,
        };
        proof {
            lemma_index_map(indices@, scores@, rows@[k as int].app_id);
            assert(window[k as int] == rows@[k as int]);
        }
        let id: u32 = rows[k].app_id;
        let index: Option<u8> = if shown {
            match indices.get(&id) {
                Some(x) => Some(*x),
                None => None,
            }
        } else {
            None
        };
        out.push(index);
        k = k + 1;
    }
    assert(as_ints(out@) =~= shown_indices(window));
    out
}

/// The indices that are there, as values.
pub open spec fn present(seen: Seq<Option<int>>) -> Seq<i64>
    decreases seen.len(),
{
    if seen.len() == 0 {
        Seq::empty()
    } else {
        let front = present(seen.drop_last());
        match seen.last() {
            Some(x) => front.push(x as i64),
            None => front,
        }
    }
}

fn present_values(seen: &Vec<Option<u8>>) -> (r: Vec<i64>)
    ensures
        r@ == present(as_ints(seen@)),
        r@.len() <= seen@.len(),
{
    let mut out: Vec<i64> = Vec::new();
    let mut i: usize = 0;
    assert(as_ints(seen@).take(0) =~= Seq::empty());
    while i < seen.len()
        invariant
            0 <= i <= seen@.len(),
            out@.len() <= i,
            out@ == present(as_ints(seen@).take(i as int)),
        decreases seen@.len() - i,
    {
        proof {
            let next = as_ints(seen@).take(i + 1);
            assert(next.drop_last() =~= as_ints(seen@).take(i as int));
            assert(next.last() == as_ints(seen@)[i as int]);
        }
        match seen[i] {
            Some(x) => out.push(x as i64),
            None => {},
        }
        i = i + 1;
    }
    assert(as_ints(seen@).take(seen@.len() as int) =~= as_ints(seen@));
    out
}

/// What a page of games shows of their indices.
#[derive(Debug, Clone, Copy, PartialEq, Eq, Structural)]
pub struct RecommendationIndexAudit {
    pub pool_size: usize,
    pub pool_eligible: bool,
    pub visible_count: usize,
    pub hidden_count: usize,
    pub distinct_indices: usize,
    pub largest_bucket: usize,
    pub top_count: usize,
    pub top_visible_count: usize,
    pub top_hidden_count: usize,
    pub top_distinct_indices: usize,
    pub top_largest_bucket: usize,
}

/// The first rows of a list, at most so many.
pub open spec fn first_rows(rows: Seq<AuditRow>, limit: usize) -> Seq<AuditRow> {
    if rows.len() <= limit {
        rows
    } else {
        rows.take(limit as int)
    }
}

impl RecommendationIndexAudit {
    /// The audit is of these games shown together.
    pub open spec fn audits(self, window: Seq<AuditRow>) -> bool {
        let values = present(shown_indices(window));
        &&& self.pool_size == window.len()
        &&& self.pool_eligible == (window.len() >= MIN_INDEX_POOL_SIZE)
        &&& self.visible_count == values.len()
        &&& self.hidden_count == window.len() - values.len()
        &&& self.distinct_indices == distinct_before(
            values,
            values.len() as int,
        )
        &&& self.largest_bucket == largest_before(
            values,
            values.len() as int,
        )
        // The page is the whole pool.
        &&& self.top_count == self.pool_size
        &&& self.top_visible_count == self.visible_count
        &&& self.top_hidden_count == self.hidden_count
        &&& self.top_distinct_indices == self.distinct_indices
        &&& self.top_largest_bucket == self.largest_bucket
    }
}

/// Audits the page that a request for `top` games shows.
pub fn summarize_recommendation_indices(rows: &Vec<AuditRow>, top: usize) -> (r:
    RecommendationIndexAudit)
    ensures
        r.audits(first_rows(rows@, top)),
        r.visible_count + r.hidden_count == r.pool_size,
{
    let count: usize = if rows.len() <= top {
        rows.len()
    } else {
        top
    };
    assert(rows@.take(rows@.len() as int) =~= rows@);
    let seen = visible_indices(rows, count);
    let values = present_values(&seen);
    let t = tally(&values);
    RecommendationIndexAudit {
        pool_size: count,
        pool_eligible: count >= MIN_INDEX_POOL_SIZE,
        visible_count: values.len(),
        hidden_count: count - values.len(),
        distinct_indices: t.distinct,
        largest_bucket: t.largest,
        top_count: count,
        top_visible_count: values.len(),
        top_hidden_count: count - values.len(),
        top_distinct_indices: t.distinct,
        top_largest_bucket: t.largest,
    }
}

} // verus!
