//! The candidates of a natural language request: the union of what the sections
//! recalled, the bounded adjustment by a model, and the final order.


use vstd::prelude::*;

use crate::score::Score;
use crate::server::ranking::fit_band;
use crate::sort::{
    at_most, chain, find_last, gather, gathered, last_position, lemma_last_position,
    lemma_picks_members, lemma_sorted_members, pick_positions, picks, sort_stable, stable_sorted,
    Precedence,
};

verus! {

broadcast use vstd::std_specs::hash::group_hash_axioms;

/// The parts of a score, as far as an item carries them.
#[derive(Debug, Clone, Copy, PartialEq, Eq, Structural)]
pub struct Components {
    pub friend_fit: Option<Score>,
    pub section_score: Option<Score>,
    pub personalized_score: Option<Score>,
    pub group_fit: Option<Score>,
    pub mode_fit: Option<Score>,
    pub access_fit: Option<Score>,
    pub hosting_fit: Option<Score>,
    pub session_fit: Option<Score>,
    pub quality: Option<Score>,
    pub activity: Option<Score>,
    pub freshness: Option<Score>,
    pub risk: Option<Score>,
    pub relevance_score: Option<Score>,
    pub final_score: Option<Score>,
}

/// A recalled feed item, as far as it is well-formed.
#[derive(Debug)]
pub struct RecalledItem {
    /// Where the item stands in the caller's own list.
    pub source: usize,
    pub app_id: Option<u32>,
    pub name: Option<String>,
    pub dominant_mode: Option<String>,
    pub taxonomy_tags: Vec<String>,
    pub publisher: Option<String>,
    pub series: Option<String>,
    pub recommended_min: Option<u64>,
    pub recommended_max: Option<u64>,
    pub score: Option<Score>,
    pub friend_fit: Option<Score>,
    pub components: Option<Components>,
    pub confidence: Option<Score>,
    pub data_confidence: Option<Score>,
    pub recommendation_index: Option<u8>,
    pub rank: Option<usize>,
    pub fit_band: Option<&'static str>,
    pub slot_reason: Option<String>,
    pub reasons: Vec<String>,
    pub cautions: Vec<String>,
    pub evidence_ids: Vec<String>,
    pub reason_evidence: Vec<String>,
    pub ai_fit: Option<Score>,
    pub ai_confidence: Option<Score>,
    pub ai_reasons: Vec<String>,
    pub hybrid_score: Option<Score>,
    pub algorithm_version: Option<String>,
}

/// Lower than every number: the key of negative infinity.
pub const LOWEST_KEY: i64 = -0x7ff0_0000_0000_0001;

impl RecalledItem {
    /// The relevance among the components.
    pub open spec fn component_relevance(self) -> Option<Score> {
        match self.components {
            Some(c) => c.relevance_score,
            None => None,
        }
    }

    /// The relevance, or else the score.
    pub open spec fn own_relevance(self) -> Option<Score> {
        if self.component_relevance() is Some {
            self.component_relevance()
        } else {
            self.score
        }
    }

    /// The relevance that an item competes with: lowest where it has no finite one.
    pub open spec fn relevance(self) -> Score {
        match self.own_relevance() {
            Some(s) => if s.finite() {
                s
            } else {
                Score { key: LOWEST_KEY }
            },
            None => Score { key: LOWEST_KEY },
        }
    }

    pub fn relevance_or_score(&self) -> (r: Option<Score>)
        ensures
            r == self.own_relevance(),
    {
        let relevance = match &self.components {
            Some(c) => c.relevance_score,
            None => None,
        };
        match relevance {
            Some(s) => Some(s),
            None => self.score,
        }
    }
}

pub fn json_item_relevance(item: &RecalledItem) -> (r: Score)
    ensures
        r == item.relevance(),
{
    match item.relevance_or_score() {
        Some(s) => {
            if s.is_finite() {
                s
            } else {
                Score { key: LOWEST_KEY }
            }
        },
        None => Score { key: LOWEST_KEY },
    }
}

/// The application identifier, or the largest where there is none.
pub open spec fn id_or_max(item: RecalledItem) -> u32 {
    match item.app_id {
        Some(id) => id,
        None => u32::MAX,
    }
}

pub fn json_app_id(item: &RecalledItem) -> (r: u32)
    ensures
        r == id_or_max(*item),
{
    match item.app_id {
        Some(id) => id,
        None => u32::MAX,
    }
}

// ---------------------------------------------------------------------------
// The union of the sections
// ---------------------------------------------------------------------------

pub open spec fn item_ids(items: Seq<RecalledItem>) -> Seq<u32> {
    items.map_values(|item: RecalledItem| id_or_max(item))
}

/// Every item names a game, and no game is there twice.
pub open spec fn one_per_game(items: Seq<RecalledItem>) -> bool {
    &&& forall|i: int| 0 <= i < items.len() ==> (#[trigger] items[i]).app_id is Some
    &&& item_ids(items).no_duplicates()
}

/// The union with one more item: a game keeps the item with the higher relevance, the
/// earlier one of equals. An item that names no game is left out.
pub open spec fn merged_with(union: Seq<RecalledItem>, item: RecalledItem) -> Seq<RecalledItem> {
    match item.app_id {
        None => union,
        Some(id) => match last_position(item_ids(union), id) {
            None => union.push(item),
            Some(p) => if item.relevance().value_rank() > union[p].relevance().value_rank() {
                union.update(p, item)
            } else {
                union
            },
        },
    }
}

pub open spec fn merged(items: Seq<RecalledItem>) -> Seq<RecalledItem>
    decreases items.len(),
{
    if items.len() == 0 {
        items
    } else {
        merged_with(merged(items.drop_last()), items.last())
    }
}

proof fn lemma_merged_with(union: Seq<RecalledItem>, item: RecalledItem)
    requires
        one_per_game(union),
    ensures
        one_per_game(merged_with(union, item)),
{
    let after = merged_with(union, item);
    let ids = item_ids(union);
    if item.app_id is Some {
        let id = item.app_id->0;
        lemma_last_position(ids, id);
        if last_position(ids, id) is None {
            assert(item_ids(after) =~= ids.push(id));
            assert forall|i: int, j: int|
                0 <= i < item_ids(after).len() && 0 <= j < item_ids(after).len() && i
                    != j implies item_ids(after)[i] != item_ids(after)[j] by {
                if i < ids.len() && j < ids.len() {
                    assert(ids[i] != ids[j]);
                } else if i < ids.len() {
                    assert(ids.contains(ids[i]));
                } else {
                    assert(ids.contains(ids[j]));
                }
            }
        } else {
            let p = last_position(ids, id)->0;
            assert(ids[p] == id);
            assert(item_ids(after) =~= ids);
        }
    }
}

/// The best item of each game that any section recalled.
pub fn merge_recalled(items: Vec<RecalledItem>) -> (r: Vec<RecalledItem>)
    ensures
        r@ == merged(items@),
        one_per_game(r@),
{
    let ghost input = items@;
    let mut union: Vec<RecalledItem> = Vec::new();
    let mut ids: Vec<u32> = Vec::new();
    assert(input.take(0) =~= Seq::empty());
    assert(item_ids(union@) =~= Seq::empty());
    for item in it: items
        invariant
            it.seq() == input,
            union@ == merged(input.take(it.index())),
            ids@ == item_ids(union@),
            one_per_game(union@),
    {
        proof {
            let next = input.take(it.index() + 1);
            assert(next.drop_last() =~= input.take(it.index()));
            assert(next.last() == item);
            lemma_merged_with(union@, item);
        }
        let ghost before = union@;
        match item.app_id {
            None => {},
            Some(id) => match find_last(&ids, id) {
                None => {
                    ids.push(id);
                    union.push(item);
                    assert(ids@ =~= item_ids(union@));
                },
                Some(p) => {
                    let new: Score = json_item_relevance(&item);
                    let old: Score = json_item_relevance(&union[p]);
                    if !old.reaches(new) {
                        union[p] = item;
                        assert(union@ =~= before.update(p as int, item));
                        assert(ids@ =~= item_ids(union@));
                    }
                },
            },
        }
    }
    assert(input.take(input.len() as int) =~= input);
    union
}

/// A hit of the hybrid search.
#[derive(Debug, Clone, Copy, PartialEq, Eq, Structural)]
pub struct HybridHit {
    pub app_id: u32,
    pub score: Score,
}

pub open spec fn hit_ids(hits: Seq<HybridHit>) -> Seq<u32> {
    hits.map_values(|hit: HybridHit| hit.app_id)
}

/// The score of the first hit on a game.
pub open spec fn hit_score(hits: Seq<HybridHit>, id: u32) -> Option<Score>
    decreases hits.len(),
{
    if hits.len() == 0 {
        None
    } else if hits[0].app_id == id {
        Some(hits[0].score)
    } else {
        hit_score(hits.drop_first(), id)
    }
}

fn first_hit_score(hits: &Vec<HybridHit>, id: u32) -> (r: Option<Score>)
    ensures
        r == hit_score(hits@, id),
{
    let mut i: usize = 0;
    assert(hits@.skip(0) =~= hits@);
    while i < hits.len()
        invariant
            0 <= i <= hits@.len(),
            hit_score(hits@, id) == hit_score(hits@.skip(i as int), id),
        decreases hits@.len() - i,
    {
        proof {
            assert(hits@.skip(i as int)[0] == hits@[i as int]);
            assert(hits@.skip(i as int).drop_first() =~= hits@.skip(i + 1));
        }
        if hits[i].app_id == id {
            return Some(hits[i].score);
        }
        i = i + 1;
    }
    None
}

/// By relevance, the higher first, then by application identifier.
pub struct PoolOrder;

impl Precedence<RecalledItem> for PoolOrder {
    open spec fn orders(&self, item: RecalledItem) -> bool {
        true
    }

    open spec fn precedes(&self, a: RecalledItem, b: RecalledItem) -> bool {
        chain(b.relevance().key - a.relevance().key, id_or_max(a) - id_or_max(b)) <= 0
    }

    proof fn lemma_total(&self, a: RecalledItem, b: RecalledItem) {
    }

    proof fn lemma_transitive(&self, a: RecalledItem, b: RecalledItem, c: RecalledItem) {
    }

    fn may_precede(&self, a: &RecalledItem, b: &RecalledItem) -> (r: bool) {
        let left: i64 = json_item_relevance(a).key;
        let right: i64 = json_item_relevance(b).key;
        if left != right {
            return left > right;
        }
        json_app_id(a) <= json_app_id(b)
    }
}

/// The games of the shared pool: first those that the search hit, in its order, then
/// the most relevant rest.
pub open spec fn pool_ids(eligible: Seq<RecalledItem>, hits: Seq<HybridHit>, limit: nat) -> Seq<
    u32,
> {
    let sorted = item_ids(stable_sorted(eligible, &PoolOrder));
    at_most(picks(hit_ids(hits) + sorted, sorted), limit)
}

/// `new` is `old` with the score of the hit on it, if there was one.
pub open spec fn with_hit(new: RecalledItem, old: RecalledItem, hits: Seq<HybridHit>) -> bool {
    new == (RecalledItem {
        hybrid_score: match hit_score(hits, id_or_max(old)) {
            Some(s) => Some(s),
            None => old.hybrid_score,
        },
        ..old
    })
}

/// One of the eligible items, with the score of the hit on it.
pub open spec fn comes_from(
    item: RecalledItem,
    eligible: Seq<RecalledItem>,
    hits: Seq<HybridHit>,
) -> bool {
    exists|k: int| 0 <= k < eligible.len() && with_hit(item, #[trigger] eligible[k], hits)
}

fn ids_of(items: &Vec<RecalledItem>) -> (r: Vec<u32>)
    ensures
        r@ == item_ids(items@),
{
    let mut ids: Vec<u32> = Vec::new();
    let mut i: usize = 0;
    while i < items.len()
        invariant
            0 <= i <= items@.len(),
            ids@ == item_ids(items@).take(i as int),
        decreases items@.len() - i,
    {
        ids.push(json_app_id(&items[i]));
        i = i + 1;
        assert(ids@ =~= item_ids(items@).take(i as int));
    }
    assert(ids@ =~= item_ids(items@));
    ids
}

pub open spec fn all_come_from(
    items: Seq<RecalledItem>,
    eligible: Seq<RecalledItem>,
    hits: Seq<HybridHit>,
) -> bool {
    forall|i: int| 0 <= i < items.len() ==> comes_from(#[trigger] items[i], eligible, hits)
}

/// Forms one pool across the sections. A hit counts only where a fully ranked section
/// emitted the game after all filters; strict relevance fills the remaining slots.
pub fn build_natural_language_candidate_pool(
    eligible: Vec<RecalledItem>,
    hits: &Vec<HybridHit>,
    limit: usize,
) -> (r: Vec<RecalledItem>)
    requires
        one_per_game(eligible@),
    ensures
        item_ids(r@) == pool_ids(eligible@, hits@, limit as nat),
        all_come_from(r@, eligible@, hits@),
        one_per_game(r@),
        r@.len() <= limit,
{
    let ghost input = eligible@;
    let by = PoolOrder;
    let sorted = sort_stable(eligible, &by);
    let ghost pool = sorted@;
    let available = ids_of(&sorted);
    let mut wanted: Vec<u32> = Vec::new();
    let mut i: usize = 0;
    while i < hits.len()
        invariant
            0 <= i <= hits@.len(),
            wanted@ == hit_ids(hits@).take(i as int),
        decreases hits@.len() - i,
    {
        wanted.push(hits[i].app_id);
        i = i + 1;
        assert(wanted@ =~= hit_ids(hits@).take(i as int));
    }
    assert(wanted@ =~= hit_ids(hits@));
    let mut j: usize = 0;
    while j < available.len()
        invariant
            0 <= j <= available@.len(),
            wanted@ == hit_ids(hits@) + available@.take(j as int),
        decreases available@.len() - j,
    {
        wanted.push(available[j]);
        j = j + 1;
        assert(wanted@ =~= hit_ids(hits@) + available@.take(j as int));
    }
    assert(available@.take(j as int) =~= available@);
    let positions = pick_positions(&wanted, &available, limit);
    let selected = gather(sorted, &positions);
    let ghost chosen = selected@;
    proof {
        assert(item_ids(chosen) =~= gathered(available@, positions@));
        lemma_sorted_members(input, &by);
        lemma_picks_members(wanted@, available@);
    }
    let mut out: Vec<RecalledItem> = Vec::new();
    for item in it: selected
        invariant
            it.seq() == chosen,
            out@.len() == it.index(),
            forall|n: int| 0 <= n < out@.len() ==> with_hit(#[trigger] out@[n], chosen[n], hits@),
    {
        let mut item = item;
        match first_hit_score(hits, json_app_id(&item)) {
            Some(score) => {
                item.hybrid_score = Some(score);
            },
            None => {},
        }
        out.push(item);
    }
    proof {
        assert forall|n: int| 0 <= n < out@.len() implies comes_from(
            #[trigger] out@[n],
            input,
            hits@,
        ) by {
            let old = pool[positions@[n] as int];
            assert(chosen[n] == old);
            assert(pool.contains(old));
            assert(input.contains(old));
            let k = choose|k: int| 0 <= k < input.len() && input[k] == old;
            assert(with_hit(out@[n], input[k], hits@));
        }
        assert(item_ids(out@) =~= item_ids(chosen)) by {
            assert forall|n: int| 0 <= n < out@.len() implies item_ids(out@)[n] == item_ids(
                chosen,
            )[n] by {
                assert(with_hit(out@[n], chosen[n], hits@));
            }
        }
        assert(item_ids(out@).no_duplicates());
        assert forall|n: int| 0 <= n < out@.len() implies (#[trigger] out@[n]).app_id is Some by {
            assert(with_hit(out@[n], chosen[n], hits@));
            let old = pool[positions@[n] as int];
            assert(pool.contains(old) && input.contains(old));
        }
        assert(item_ids(out@).len() == out@.len());
    }
    out
}

/// The search cannot bring back what was filtered out: every game of the pool is one
/// that a section emitted.
pub proof fn lemma_pool_only_selects(
    eligible: Seq<RecalledItem>,
    hits: Seq<HybridHit>,
    limit: nat,
)
    ensures
        pool_ids(eligible, hits, limit).len() <= limit,
        pool_ids(eligible, hits, limit).no_duplicates(),
        forall|id: u32| #[trigger]
            pool_ids(eligible, hits, limit).contains(id) ==> item_ids(eligible).contains(id),
{
    let sorted = stable_sorted(eligible, &PoolOrder);
    let available = item_ids(sorted);
    let wanted = hit_ids(hits) + available;
    lemma_picks_members(wanted, available);
    lemma_sorted_members(eligible, &PoolOrder);
    let all = picks(wanted, available);
    let ids = pool_ids(eligible, hits, limit);
    assert forall|id: u32| #[trigger] ids.contains(id) implies item_ids(eligible).contains(id) by {
        let i = choose|i: int| 0 <= i < ids.len() && ids[i] == id;
        assert(all[i] == id);
        assert(all.contains(id));
        let k = choose|k: int| 0 <= k < available.len() && available[k] == id;
        assert(sorted.contains(sorted[k]));
        assert(eligible.contains(sorted[k]));
        let j = choose|j: int| 0 <= j < eligible.len() && eligible[j] == sorted[k];
        assert(item_ids(eligible)[j] == id);
    }
}

}
