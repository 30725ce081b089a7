//! What a model may do to a list of candidates: move them by a bounded amount and
//! explain them. It cannot add a candidate, bring one back or drop one.

use std::collections::HashMap;

use vstd::prelude::*;

use crate::score::Score;
use crate::server::intent::with_field;
use crate::server::ranking::{
    context_percentile_indices, fit_band, fit_band_name, is_index_map, slot_reason_str,
    Explanation, RankedCandidate, ScoreBreakdown, SlotReason, MIN_INDEX_DATA_CONFIDENCE_KEY,
};
use crate::server::recall::{
    id_or_max, item_ids, json_app_id, json_item_relevance, Components, RecalledItem, LOWEST_KEY,
};
use crate::sort::{
    at_most, chain, gather, gathered, last_position, lemma_sorted_rearranges, pick_positions, picks,
    sort_stable, stable_sorted, Precedence,
};
use crate::text::{clone_opt, clone_strings, opt_view, views};

verus! {

broadcast use vstd::std_specs::hash::group_hash_axioms;

/// What a model said of one candidate, after validation.
#[derive(Debug)]
pub struct AiRankItem {
    pub app_id: u32,
    pub fit_score: Score,
    pub confidence: Score,
    pub reason_evidence_ids: Vec<String>,
    pub reasons: Vec<String>,
    pub cautions: Vec<String>,
}

/// A validated answer of the ranking model.
#[derive(Debug)]
pub struct AiRankResult {
    pub recommendations: Vec<AiRankItem>,
    pub summary: String,
    pub summary_evidence_ids: Vec<String>,
}

// ---------------------------------------------------------------------------
// Ranking metadata
// ---------------------------------------------------------------------------

/// The entries that take part in the percentiles: those that name a game and have a
/// relevance.
pub open spec fn index_entries(items: Seq<RecalledItem>) -> Seq<(u32, Score)>
    decreases items.len(),
{
    if items.len() == 0 {
        Seq::empty()
    } else {
        let front = index_entries(items.drop_last());
        let item = items.last();
        if item.app_id is Some && item.own_relevance() is Some {
            front.push((item.app_id->0, item.own_relevance()->0))
        } else {
            front
        }
    }
}

pub open spec fn data_confidence_of(item: RecalledItem) -> Score {
    if item.data_confidence is Some {
        item.data_confidence->0
    } else if item.confidence is Some {
        item.confidence->0
    } else {
        Score { key: 0 }
    }
}

/// An index that was visible stays visible, with its value in the new list; one that was
/// hidden stays hidden.
pub open spec fn refreshed_index(item: RecalledItem, indices: Map<u32, u8>) -> Option<u8> {
    if item.app_id is Some && item.recommendation_index is Some && data_confidence_of(item).at_least(
        Score { key: MIN_INDEX_DATA_CONFIDENCE_KEY },
    ) && indices.dom().contains(item.app_id->0) {
        Some(indices[item.app_id->0])
    } else {
        None
    }
}

/// `new` is `old` at the place `rank`.
pub open spec fn refreshed_item(
    new: RecalledItem,
    old: RecalledItem,
    rank: int,
    indices: Map<u32, u8>,
) -> bool {
    &&& new == (RecalledItem {
        rank: new.rank,
        recommendation_index: refreshed_index(old, indices),
        fit_band: new.fit_band,
        slot_reason: new.slot_reason,
        ..old
    })
    &&& new.rank == Some(rank as usize) && rank <= usize::MAX
    &&& new.fit_band is Some && new.fit_band->0@ == fit_band_name(new.recommendation_index)
    &&& opt_view(new.slot_reason) == (match old.slot_reason {
        Some(reason) => Some(reason@),
        None => Some("base"@),
    })
}

/// `new` is `old`, in the same order, with ranks, indices and bands brought up to date.
pub open spec fn refreshed(new: Seq<RecalledItem>, old: Seq<RecalledItem>) -> bool {
    &&& new.len() == old.len()
    &&& exists|indices: Map<u32, u8>| #[trigger]
        is_index_map(indices, index_entries(old)) && forall|i: int|
            0 <= i < new.len() ==> refreshed_item(#[trigger] new[i], old[i], i + 1, indices)
}

fn entries_of(items: &Vec<RecalledItem>) -> (r: Vec<(u32, Score)>)
    ensures
        r@ == index_entries(items@),
{
    let mut entries: Vec<(u32, Score)> = Vec::new();
    let mut i: usize = 0;
    assert(items@.take(0) =~= Seq::empty());
    while i < items.len()
        invariant
            0 <= i <= items@.len(),
            entries@ == index_entries(items@.take(i as int)),
        decreases items@.len() - i,
    {
        proof {
            let next = items@.take(i + 1);
            assert(next.drop_last() =~= items@.take(i as int));
            assert(next.last() == items@[i as int]);
        }
        match (items[i].app_id, items[i].relevance_or_score()) {
            (Some(id), Some(score)) => {
                entries.push((id, score));
            },
            _ => {},
        }
        i = i + 1;
    }
    assert(items@.take(items@.len() as int) =~= items@);
    entries
}

fn refresh_item(item: RecalledItem, rank: usize, indices: &HashMap<u32, u8>) -> (r: RecalledItem)
    ensures
        refreshed_item(r, item, rank as int, indices@),
{
    let mut item = item;
    let confidence: Score = match item.data_confidence {
        Some(score) => score,
        None => match item.confidence {
            Some(score) => score,
            None => Score { key: 0 },
        },
    };
    let index: Option<u8> = match item.app_id {
        Some(id) => {
            if item.recommendation_index.is_some() && confidence.reaches(
                Score { key: MIN_INDEX_DATA_CONFIDENCE_KEY },
            ) {
                match indices.get(&id) {
                    Some(index) => Some(*index),
                    None => None,
                }
            } else {
                None
            }
        },
        None => None,
    };
    item.rank = Some(rank);
    item.recommendation_index = index;
    item.fit_band = Some(fit_band(index));
    if item.slot_reason.is_none() {
        item.slot_reason = Some("base".to_owned());
    }
    item
}

/// Brings ranks, indices and bands up to date with the order of the list.
pub fn refresh_json_ranking_metadata(items: Vec<RecalledItem>) -> (r: Vec<RecalledItem>)
    ensures
        refreshed(r@, items@),
{
    let ghost input = items@;
    let entries = entries_of(&items);
    let indices = context_percentile_indices(&entries);
    let total: usize = items.len();
    let mut out: Vec<RecalledItem> = Vec::new();
    for item in it: items
        invariant
            it.seq() == input,
            total == input.len(),
            out@.len() == it.index(),
            forall|j: int|
                0 <= j < out@.len() ==> refreshed_item(
                    #[trigger] out@[j],
                    input[j],
                    j + 1,
                    indices@,
                ),
    {
        let place: usize = out.len();
        assert(place < total);
        out.push(refresh_item(item, place + 1, &indices));
    }
    proof {
        assert(is_index_map(indices@, index_entries(input)));
    }
    out
}

// ---------------------------------------------------------------------------
// The adjustment
// ---------------------------------------------------------------------------

pub open spec fn recommendation_ids(recommendations: Seq<AiRankItem>) -> Seq<u32> {
    recommendations.map_values(|item: AiRankItem| item.app_id)
}

/// What the model said of the game, if anything; the last word counts.
pub open spec fn advice_for(recommendations: Seq<AiRankItem>, app_id: Option<u32>) -> Option<int> {
    match app_id {
        Some(id) => last_position(recommendation_ids(recommendations), id),
        None => None,
    }
}

/// The list with the further entries in it, each once.
pub open spec fn with_fields(list: Seq<Seq<char>>, more: Seq<Seq<char>>) -> Seq<Seq<char>>
    decreases more.len(),
{
    if more.len() == 0 {
        list
    } else {
        with_field(with_fields(list, more.drop_last()), more.last())
    }
}

fn add_fields(list: &mut Vec<String>, more: &Vec<String>)
    ensures
        views(final(list)@) == with_fields(views(old(list)@), views(more@)),
{
    let ghost start = views(list@);
    let mut i: usize = 0;
    assert(views(more@).take(0) =~= Seq::empty());
    while i < more.len()
        invariant
            0 <= i <= more@.len(),
            views(list@) == with_fields(start, views(more@).take(i as int)),
        decreases more@.len() - i,
    {
        proof {
            let next = views(more@).take(i + 1);
            assert(next.drop_last() =~= views(more@).take(i as int));
            assert(next.last() == more@[i as int]@);
        }
        crate::server::intent::push_hard(list, more[i].as_str());
        i = i + 1;
    }
    assert(views(more@).take(i as int) =~= views(more@));
}

fn append_all(list: &mut Vec<String>, more: &Vec<String>)
    ensures
        views(final(list)@) == views(old(list)@) + views(more@),
{
    let ghost start = views(list@);
    let mut i: usize = 0;
    assert(views(list@) =~= start + views(more@).take(0));
    while i < more.len()
        invariant
            0 <= i <= more@.len(),
            views(list@) == start + views(more@).take(i as int),
        decreases more@.len() - i,
    {
        let item = more[i].clone();
        let ghost before = list@;
        list.push(item);
        i = i + 1;
        proof {
            assert(views(list@) =~= views(before).push(item@));
            assert(views(list@) =~= start + views(more@).take(i as int));
        }
    }
    assert(views(more@).take(i as int) =~= views(more@));
}

/// `new` is `old` after the model's word on it, with the blended score.
pub open spec fn adjusted(new: RecalledItem, old: RecalledItem, ai: AiRankItem, blended: Score) -> bool {
    &&& new == (RecalledItem {
        score: Some(blended),
        ai_fit: Some(ai.fit_score),
        ai_confidence: Some(ai.confidence),
        ai_reasons: new.ai_reasons,
        cautions: new.cautions,
        evidence_ids: new.evidence_ids,
        reason_evidence: new.reason_evidence,
        components: match old.components {
            Some(c) => Some(
                Components {
                    relevance_score: Some(blended),
                    final_score: Some(blended),
                    ..c
                },
            ),
            None => None,
        },
        ..old
    })
    &&& views(new.ai_reasons@) == (if ai.reasons@.len() > 0 {
        views(ai.reasons@)
    } else {
        views(old.ai_reasons@)
    })
    &&& views(new.cautions@) == views(old.cautions@) + views(ai.cautions@)
    &&& views(new.evidence_ids@) == with_fields(
        views(old.evidence_ids@),
        views(ai.reason_evidence_ids@),
    )
    &&& views(new.reason_evidence@) == with_fields(
        views(old.reason_evidence@),
        views(ai.reason_evidence_ids@),
    )
}

fn adjust_item(item: RecalledItem, ai: &AiRankItem, blended: Score) -> (r: RecalledItem)
    ensures
        adjusted(r, item, *ai, blended),
{
    let mut item = item;
    item.score = Some(blended);
    item.ai_fit = Some(ai.fit_score);
    item.ai_confidence = Some(ai.confidence);
    if ai.reasons.len() > 0 {
        item.ai_reasons = clone_strings(&ai.reasons);
    }
    append_all(&mut item.cautions, &ai.cautions);
    add_fields(&mut item.evidence_ids, &ai.reason_evidence_ids);
    add_fields(&mut item.reason_evidence, &ai.reason_evidence_ids);
    match item.components {
        Some(c) => {
            let mut c = c;
            c.relevance_score = Some(blended);
            c.final_score = Some(blended);
            item.components = Some(c);
        },
        None => {},
    }
    item
}

/// What the blend of one item starts from: its relevance, or else its score, or else
/// nothing.
pub open spec fn blend_base_of(item: RecalledItem) -> Score {
    match item.own_relevance() {
        Some(score) => score,
        None => Score { key: 0 },
    }
}

pub fn blend_base(item: &RecalledItem) -> (r: Score)
    ensures
        r == blend_base_of(*item),
{
    match item.relevance_or_score() {
        Some(score) => score,
        None => Score { key: 0 },
    }
}

/// The position in `recommendations` of what the model said of an item.
pub fn find_advice(recommendations: &Vec<AiRankItem>, item: &RecalledItem) -> (r: Option<usize>)
    ensures
        match r {
            Some(p) => p < recommendations@.len() && advice_for(recommendations@, item.app_id)
                == Some(p as int),
            None => advice_for(recommendations@, item.app_id) is None,
        },
{
    match item.app_id {
        Some(id) => {
            let mut i: usize = recommendations.len();
            let ghost ids = recommendation_ids(recommendations@);
            assert(ids.take(i as int) =~= ids);
            while i > 0
                invariant
                    0 <= i <= recommendations@.len(),
                    item.app_id == Some(id),
                    ids == recommendation_ids(recommendations@),
                    last_position(ids, id) == last_position(ids.take(i as int), id),
                decreases i,
            {
                proof {
                    assert(ids.take(i as int).last() == recommendations@[i - 1].app_id);
                    assert(ids.take(i as int).drop_last() =~= ids.take(i - 1));
                }
                if recommendations[i - 1].app_id == id {
                    return Some(i - 1);
                }
                i = i - 1;
            }
            None
        },
        None => None,
    }
}

/// `new` is `old` after the model's word, if it said anything.
pub open spec fn advised(
    new: RecalledItem,
    old: RecalledItem,
    recommendations: Seq<AiRankItem>,
    blended: Score,
) -> bool {
    match advice_for(recommendations, old.app_id) {
        Some(p) => adjusted(new, old, recommendations[p], blended),
        None => new == old,
    }
}

/// An item with the place that breaks ties: where its game last stood before.
pub struct Placed {
    pub item: RecalledItem,
    pub place: usize,
}

/// The identifier as it is compared: items without one first.
pub open spec fn id_rank(app_id: Option<u32>) -> int {
    match app_id {
        Some(id) => id as int,
        None => -1,
    }
}

pub open spec fn score_key(item: RecalledItem) -> int {
    match item.score {
        Some(score) => score.key as int,
        None => LOWEST_KEY as int,
    }
}

/// By blended score, the higher first, then by the place before.
pub struct BlendedOrder;

impl Precedence<Placed> for BlendedOrder {
    open spec fn orders(&self, item: Placed) -> bool {
        true
    }

    open spec fn precedes(&self, a: Placed, b: Placed) -> bool {
        chain(
            score_key(b.item) - score_key(a.item),
            chain(a.place - b.place, id_rank(a.item.app_id) - id_rank(b.item.app_id)),
        ) <= 0
    }

    proof fn lemma_total(&self, a: Placed, b: Placed) {
    }

    proof fn lemma_transitive(&self, a: Placed, b: Placed, c: Placed) {
    }

    fn may_precede(&self, a: &Placed, b: &Placed) -> (r: bool) {
        let left: i64 = match a.item.score {
            Some(score) => score.key,
            None => LOWEST_KEY,
        };
        let right: i64 = match b.item.score {
            Some(score) => score.key,
            None => LOWEST_KEY,
        };
        if left != right {
            return left > right;
        }
        if a.place != b.place {
            return a.place < b.place;
        }
        match (a.item.app_id, b.item.app_id) {
            (None, _) => true,
            (Some(_), None) => false,
            (Some(x), Some(y)) => x <= y,
        }
    }
}

pub open spec fn placed_items(placed: Seq<Placed>) -> Seq<RecalledItem> {
    placed.map_values(|p: Placed| p.item)
}

/// The identifiers that places are looked up by; an item without one has no place.
pub open spec fn known_ids(items: Seq<RecalledItem>) -> Seq<Option<u32>> {
    items.map_values(|item: RecalledItem| item.app_id)
}

/// The last place of a game in a list.
pub open spec fn last_place(ids: Seq<Option<u32>>, id: u32) -> Option<int>
    decreases ids.len(),
{
    if ids.len() == 0 {
        None
    } else if ids.last() == Some(id) {
        Some(ids.len() - 1)
    } else {
        last_place(ids.drop_last(), id)
    }
}

/// The tie-breaking place of an item in `before`.
pub open spec fn tie_place(before: Seq<RecalledItem>, app_id: Option<u32>) -> usize {
    match app_id {
        Some(id) => match last_place(known_ids(before), id) {
            Some(p) => p as usize,
            None => usize::MAX,
        },
        None => usize::MAX,
    }
}

fn find_place(items: &Vec<Option<u32>>, id: u32) -> (r: usize)
    ensures
        r == (match last_place(items@, id) {
            Some(p) => p as usize,
            None => usize::MAX,
        }),
{
    let mut i: usize = items.len();
    assert(items@.take(i as int) =~= items@);
    while i > 0
        invariant
            0 <= i <= items@.len(),
            last_place(items@, id) == last_place(items@.take(i as int), id),
        decreases i,
    {
        proof {
            assert(items@.take(i as int).last() == items@[i - 1]);
            assert(items@.take(i as int).drop_last() =~= items@.take(i - 1));
        }
        match items[i - 1] {
            Some(other) => {
                if other == id {
                    return i - 1;
                }
            },
            None => {},
        }
        i = i - 1;
    }
    usize::MAX
}

/// What identifies a candidate, whatever is said of it.
pub open spec fn identity(item: RecalledItem) -> (usize, Option<u32>) {
    (item.source, item.app_id)
}

pub open spec fn identities(items: Seq<RecalledItem>) -> Seq<(usize, Option<u32>)> {
    items.map_values(|item: RecalledItem| identity(item))
}

/// The candidates, adjusted one by one and put in their new order.
pub open spec fn reordered(
    new: Seq<RecalledItem>,
    old: Seq<RecalledItem>,
    recommendations: Seq<AiRankItem>,
    blended: Seq<Score>,
    placed: Seq<Placed>,
) -> bool {
    &&& placed.len() == old.len()
    &&& forall|i: int|
        0 <= i < placed.len() ==> advised(
            (#[trigger] placed[i]).item,
            old[i],
            recommendations,
            blended[i],
        ) && placed[i].place == tie_place(old, old[i].app_id)
    &&& new == placed_items(stable_sorted(placed, &BlendedOrder))
}

/// The games with the advice on them, in the order of the blended scores, and numbered anew.
pub open spec fn is_blended_by(
    new: Seq<RecalledItem>,
    old: Seq<RecalledItem>,
    recommendations: Seq<AiRankItem>,
    blended: Seq<Score>,
) -> bool {
    exists|placed: Seq<Placed>, ordered: Seq<RecalledItem>| #[trigger]
        reordered(ordered, old, recommendations, blended, placed) && refreshed(new, ordered)
}

/// Applies a validated answer of the model. `blended` holds, for each item that the model
/// spoke of, the score blended from `blend_base`, the fit and the confidence. The answer
/// is a set of numeric adjustments, never an order of its own.
pub fn apply_validated_ai_rank(
    items: Vec<RecalledItem>,
    recommendations: &Vec<AiRankItem>,
    blended: &Vec<Score>,
) -> (r: Vec<RecalledItem>)
    requires
        blended@.len() == items@.len(),
    ensures
        is_blended_by(r@, items@, recommendations@, blended@),
        identities(r@).to_multiset() == identities(items@).to_multiset(),
        r@.len() == items@.len(),
{
    let ghost input = items@;
    let mut ids: Vec<Option<u32>> = Vec::new();
    let mut i: usize = 0;
    while i < items.len()
        invariant
            0 <= i <= items@.len(),
            ids@ == known_ids(items@).take(i as int),
        decreases items@.len() - i,
    {
        ids.push(items[i].app_id);
        i = i + 1;
        assert(ids@ =~= known_ids(items@).take(i as int));
    }
    assert(ids@ =~= known_ids(input));
    let mut placed: Vec<Placed> = Vec::new();
    for item in it: items
        invariant
            it.seq() == input,
            blended@.len() == input.len(),
            ids@ == known_ids(input),
            placed@.len() == it.index(),
            forall|j: int|
                0 <= j < placed@.len() ==> advised(
                    (#[trigger] placed@[j]).item,
                    input[j],
                    recommendations@,
                    blended@[j],
                ) && placed@[j].place == tie_place(input, input[j].app_id),
    {
        let at: usize = placed.len();
        assert(item == input[at as int]);
        let place: usize = match item.app_id {
            Some(id) => find_place(&ids, id),
            None => usize::MAX,
        };
        let item = match find_advice(recommendations, &item) {
            Some(p) => adjust_item(item, &recommendations[p], blended[at]),
            None => item,
        };
        placed.push(Placed { item, place });
    }
    let ghost before = placed@;
    let by = BlendedOrder;
    let sorted = sort_stable(placed, &by);
    let ghost after = sorted@;
    let mut ordered: Vec<RecalledItem> = Vec::new();
    for p in it: sorted
        invariant
            it.seq() == after,
            ordered@ == placed_items(after).take(it.index()),
    {
        ordered.push(p.item);
        proof {
            assert(ordered@ =~= placed_items(after).take(it.index() + 1));
        }
    }
    assert(ordered@ =~= placed_items(after));
    let ghost new_order = ordered@;
    let result = refresh_json_ranking_metadata(ordered);
    proof {
        assert(reordered(new_order, input, recommendations@, blended@, before));
        // Nothing is added or lost on the way.
        lemma_sorted_rearranges(before, &by);
        let key = |p: Placed| identity(p.item);
        assert(before.map_values(key) =~= identities(input));
        assert(after.map_values(key) =~= identities(new_order));
        lemma_map_rearranged(before, after, key);
        assert(identities(result@) =~= identities(new_order)) by {
            let indices = choose|indices: Map<u32, u8>| #[trigger]
                is_index_map(indices, index_entries(new_order)) && forall|n: int|
                    0 <= n < result@.len() ==> refreshed_item(
                        #[trigger] result@[n],
                        new_order[n],
                        n + 1,
                        indices,
                    );
            assert forall|n: int| 0 <= n < result@.len() implies identities(result@)[n]
                == identities(new_order)[n] by {
                assert(refreshed_item(result@[n], new_order[n], n + 1, indices));
            }
        }
        assert(identities(result@).len() == result@.len());
        assert(identities(input).len() == input.len());
    }
    result
}

/// Mapping two rearrangements of each other gives rearrangements of each other.
proof fn lemma_map_rearranged<A, B>(a: Seq<A>, b: Seq<A>, f: spec_fn(A) -> B)
    requires
        a.to_multiset() == b.to_multiset(),
    ensures
        a.map_values(f).to_multiset() == b.map_values(f).to_multiset(),
    decreases a.len(),
{
    broadcast use vstd::seq_lib::group_to_multiset_ensures;

    assert(a.len() == a.to_multiset().len());
    assert(b.len() == b.to_multiset().len());
    if a.len() == 0 {
        assert(a.map_values(f) =~= b.map_values(f));
    } else {
        let x = a.last();
        assert(a.contains(x));
        assert(a.to_multiset().count(x) > 0);
        assert(b.contains(x));
        let k = choose|k: int| 0 <= k < b.len() && b[k] == x;
        let rest = b.remove(k);
        assert(a.drop_last().push(x) =~= a);
        assert(rest.to_multiset() =~= b.to_multiset().remove(x));
        assert(a.drop_last().to_multiset() =~= a.to_multiset().remove(x)) by {
            assert(a.to_multiset() == a.drop_last().to_multiset().insert(x));
        }
        lemma_map_rearranged(a.drop_last(), rest, f);
        assert(a.map_values(f) =~= a.drop_last().map_values(f).push(f(x)));
        assert(rest.map_values(f) =~= b.map_values(f).remove(k));
        let mb = b.map_values(f);
        assert(mb.remove(k).to_multiset() == mb.to_multiset().remove(f(x)));
        assert(mb[k] == f(x));
        assert(mb.contains(mb[k]));
        assert(mb.to_multiset().count(f(x)) > 0);
        assert(mb.to_multiset() =~= mb.remove(k).to_multiset().insert(f(x)));
    }
}

// ---------------------------------------------------------------------------
// The final order
// ---------------------------------------------------------------------------

pub open spec fn score_or_zero(score: Option<Score>) -> Score {
    match score {
        Some(s) => s,
        None => Score { key: 0 },
    }
}

fn or_zero(score: Option<Score>) -> (r: Score)
    ensures
        r == score_or_zero(score),
{
    match score {
        Some(s) => s,
        None => Score { key: 0 },
    }
}

/// The components of an item that has none are all absent.
pub open spec fn no_components() -> Components {
    Components {
        friend_fit: None,
        section_score: None,
        personalized_score: None,
        group_fit: None,
        mode_fit: None,
        access_fit: None,
        hosting_fit: None,
        session_fit: None,
        quality: None,
        activity: None,
        freshness: None,
        risk: None,
        relevance_score: None,
        final_score: None,
    }
}

pub open spec fn components_of(item: RecalledItem) -> Components {
    match item.components {
        Some(c) => c,
        None => no_components(),
    }
}

/// A party bound that fits.
pub open spec fn small(value: Option<u64>) -> Option<u8> {
    match value {
        Some(v) => if v <= 255 {
            Some(v as u8)
        } else {
            None
        },
        None => None,
    }
}

fn to_small(value: Option<u64>) -> (r: Option<u8>)
    ensures
        r == small(value),
{
    match value {
        Some(v) => {
            if v <= 255 {
                Some(v as u8)
            } else {
                None
            }
        },
        None => None,
    }
}

/// The score parts that an item is reranked with: what is missing counts as zero, a
/// missing final score falls back on the relevance.
pub open spec fn breakdown_of(item: RecalledItem) -> ScoreBreakdown {
    let c = components_of(item);
    ScoreBreakdown {
        friend_fit: if c.friend_fit is Some {
            c.friend_fit->0
        } else {
            score_or_zero(item.friend_fit)
        },
        section_score: score_or_zero(c.section_score),
        personalized_score: score_or_zero(c.personalized_score),
        group_fit: score_or_zero(c.group_fit),
        mode_fit: score_or_zero(c.mode_fit),
        access_fit: score_or_zero(c.access_fit),
        hosting_fit: score_or_zero(c.hosting_fit),
        session_fit: score_or_zero(c.session_fit),
        quality: score_or_zero(c.quality),
        activity: score_or_zero(c.activity),
        freshness: score_or_zero(c.freshness),
        risk: score_or_zero(c.risk),
        relevance_score: item.relevance(),
        final_score: if item.score is Some {
            item.score->0
        } else if c.final_score is Some {
            c.final_score->0
        } else {
            item.relevance()
        },
    }
}

/// `candidate` is what an item that names a game is reranked as.
pub open spec fn candidate_of(
    candidate: RankedCandidate,
    item: RecalledItem,
    default_version: Seq<char>,
) -> bool {
    &&& item.app_id == Some(candidate.app_id)
    &&& candidate.name@ == (match item.name {
        Some(name) => name@,
        None => Seq::empty(),
    })
    &&& opt_view(candidate.dominant_mode) == opt_view(item.dominant_mode)
    &&& views(candidate.taxonomy_tags@) == views(item.taxonomy_tags@)
    &&& opt_view(candidate.publisher) == opt_view(item.publisher)
    &&& opt_view(candidate.series) == opt_view(item.series)
    &&& candidate.recommended_min == small(item.recommended_min)
    &&& candidate.recommended_max == small(item.recommended_max)
    &&& candidate.data_confidence == data_confidence_of(item)
    &&& candidate.score == breakdown_of(item)
    &&& views(candidate.explanation.reasons@) == views(item.reasons@)
    &&& views(candidate.explanation.cautions@) == views(item.cautions@)
    &&& views(candidate.explanation.evidence_ids@) == views(item.evidence_ids@)
    &&& candidate.slot_reason is Base
    &&& candidate.algorithm_version@ == (match item.algorithm_version {
        Some(version) => version@,
        None => default_version,
    })
}

/// What an item is reranked as; nothing, where it names no game.
pub fn ranked_candidate_from_json(item: &RecalledItem, default_version: &str) -> (r: Option<
    RankedCandidate,
>)
    ensures
        r is Some <==> item.app_id is Some,
        r matches Some(candidate) ==> candidate_of(candidate, *item, default_version@),
{
    let app_id: u32 = match item.app_id {
        Some(id) => id,
        None => return None,
    };
    let c: Components = match item.components {
        Some(c) => c,
        None => Components {
            friend_fit: None,
            section_score: None,
            personalized_score: None,
            group_fit: None,
            mode_fit: None,
            access_fit: None,
            hosting_fit: None,
            session_fit: None,
            quality: None,
            activity: None,
            freshness: None,
            risk: None,
            relevance_score: None,
            final_score: None,
        },
    };
    let relevance_score: Score = json_item_relevance(item);
    let final_score: Score = match item.score {
        Some(score) => score,
        None => match c.final_score {
            Some(score) => score,
            None => relevance_score,
        },
    };
    let friend_fit: Score = match c.friend_fit {
        Some(score) => score,
        None => or_zero(item.friend_fit),
    };
    let data_confidence: Score = match item.data_confidence {
        Some(score) => score,
        None => or_zero(item.confidence),
    };
    let name = match &item.name {
        Some(name) => name.clone(),
        None => String::new(),
    };
    let algorithm_version = match &item.algorithm_version {
        Some(version) => version.clone(),
        None => default_version.to_owned(),
    };
    Some(
        RankedCandidate {
            app_id,
            name,
            dominant_mode: clone_opt(&item.dominant_mode),
            taxonomy_tags: clone_strings(&item.taxonomy_tags),
            publisher: clone_opt(&item.publisher),
            series: clone_opt(&item.series),
            recommended_min: to_small(item.recommended_min),
            recommended_max: to_small(item.recommended_max),
            data_confidence,
            score: ScoreBreakdown {
                friend_fit,
                section_score: or_zero(c.section_score),
                personalized_score: or_zero(c.personalized_score),
                group_fit: or_zero(c.group_fit),
                mode_fit: or_zero(c.mode_fit),
                access_fit: or_zero(c.access_fit),
                hosting_fit: or_zero(c.hosting_fit),
                session_fit: or_zero(c.session_fit),
                quality: or_zero(c.quality),
                activity: or_zero(c.activity),
                freshness: or_zero(c.freshness),
                risk: or_zero(c.risk),
                relevance_score,
                final_score,
            },
            explanation: Explanation {
                reasons: clone_strings(&item.reasons),
                cautions: clone_strings(&item.cautions),
                evidence_ids: clone_strings(&item.evidence_ids),
            },
            slot_reason: SlotReason::Base,
            algorithm_version,
        },
    )
}

/// A place in the reranked list: which game, and why it stands there.
#[derive(Debug, Clone, Copy, PartialEq, Eq, Structural)]
pub struct Slot {
    pub app_id: u32,
    pub reason: SlotReason,
}

pub open spec fn slot_ids(slots: Seq<Slot>) -> Seq<u32> {
    slots.map_values(|slot: Slot| slot.app_id)
}

/// Why a game stands where it first does.
pub open spec fn first_reason(slots: Seq<Slot>, id: u32) -> SlotReason
    decreases slots.len(),
{
    if slots.len() == 0 {
        SlotReason::Base
    } else if slots[0].app_id == id {
        slots[0].reason
    } else {
        first_reason(slots.drop_first(), id)
    }
}

fn reason_for(slots: &Vec<Slot>, id: u32) -> (r: SlotReason)
    ensures
        r == first_reason(slots@, id),
{
    let mut i: usize = 0;
    assert(slots@.skip(0) =~= slots@);
    while i < slots.len()
        invariant
            0 <= i <= slots@.len(),
            first_reason(slots@, id) == first_reason(slots@.skip(i as int), id),
        decreases slots@.len() - i,
    {
        proof {
            assert(slots@.skip(i as int)[0] == slots@[i as int]);
            assert(slots@.skip(i as int).drop_first() =~= slots@.skip(i + 1));
        }
        if slots[i].app_id == id {
            return slots[i].reason;
        }
        i = i + 1;
    }
    SlotReason::Base
}

/// The items that name a game, and those that do not, each in order.
pub open spec fn naming(items: Seq<RecalledItem>, wanted: bool) -> Seq<RecalledItem>
    decreases items.len(),
{
    if items.len() == 0 {
        items
    } else {
        let front = naming(items.drop_last(), wanted);
        if (items.last().app_id is Some) == wanted {
            front.push(items.last())
        } else {
            front
        }
    }
}

/// `new` is `old` with the reason for its place.
pub open spec fn slotted(new: RecalledItem, old: RecalledItem, reason: Seq<char>) -> bool {
    &&& new == (RecalledItem { slot_reason: new.slot_reason, ..old })
    &&& opt_view(new.slot_reason) == Some(reason)
}

/// The reranked items: the games in the order of the slots, then whatever names no game.
pub open spec fn reranked(
    new: Seq<RecalledItem>,
    old: Seq<RecalledItem>,
    slots: Seq<Slot>,
) -> bool {
    let games = naming(old, true);
    let rest = naming(old, false);
    let order = picks(slot_ids(slots), item_ids(games));
    &&& new.len() == order.len() + rest.len()
    &&& forall|i: int|
        #![trigger order[i]]
        0 <= i < order.len() ==> ({
            let p = last_position(item_ids(games), order[i]);
            &&& p is Some
            &&& 0 <= p->0 < games.len()
            &&& slotted(new[i], games[p->0], first_reason(slots, order[i]).name())
        })
    &&& forall|i: int|
        #![trigger rest[i]]
        0 <= i < rest.len() ==> slotted(
            new[order.len() + i],
            rest[i],
            match rest[i].slot_reason {
                Some(reason) => reason@,
                None => "base"@,
            },
        )
}

fn split_by_naming(items: Vec<RecalledItem>) -> (r: (Vec<RecalledItem>, Vec<RecalledItem>))
    ensures
        r.0@ == naming(items@, true),
        r.1@ == naming(items@, false),
{
    let ghost input = items@;
    let mut games: Vec<RecalledItem> = Vec::new();
    let mut rest: Vec<RecalledItem> = Vec::new();
    assert(input.take(0) =~= Seq::empty());
    for item in it: items
        invariant
            it.seq() == input,
            games@ == naming(input.take(it.index()), true),
            rest@ == naming(input.take(it.index()), false),
    {
        proof {
            let next = input.take(it.index() + 1);
            assert(next.drop_last() =~= input.take(it.index()));
            assert(next.last() == item);
        }
        if item.app_id.is_some() {
            games.push(item);
        } else {
            rest.push(item);
        }
    }
    assert(input.take(input.len() as int) =~= input);
    (games, rest)
}

/// The games in the order of the slots, and numbered anew.
pub open spec fn is_reranked_by(
    new: Seq<RecalledItem>,
    old: Seq<RecalledItem>,
    slots: Seq<Slot>,
) -> bool {
    exists|ordered: Seq<RecalledItem>| #[trigger]
        reranked(ordered, old, slots) && refreshed(new, ordered)
}

/// Puts the items in the order that diversification gave them, and brings their ranking
/// metadata up to date. `slots` is the reranked list of the games among the items.
pub fn global_natural_language_rerank(items: Vec<RecalledItem>, slots: &Vec<Slot>) -> (r: Vec<
    RecalledItem,
>)
    ensures
        is_reranked_by(r@, items@, slots@),
{
    let ghost input = items@;
    let (games, rest) = split_by_naming(items);
    let ghost all_games = games@;
    let ghost all_rest = rest@;
    let mut available: Vec<u32> = Vec::new();
    let mut i: usize = 0;
    while i < games.len()
        invariant
            0 <= i <= games@.len(),
            available@ == item_ids(games@).take(i as int),
        decreases games@.len() - i,
    {
        available.push(json_app_id(&games[i]));
        i = i + 1;
        assert(available@ =~= item_ids(games@).take(i as int));
    }
    assert(available@ =~= item_ids(games@));
    let mut wanted: Vec<u32> = Vec::new();
    let mut j: usize = 0;
    while j < slots.len()
        invariant
            0 <= j <= slots@.len(),
            wanted@ == slot_ids(slots@).take(j as int),
        decreases slots@.len() - j,
    {
        wanted.push(slots[j].app_id);
        j = j + 1;
        assert(wanted@ =~= slot_ids(slots@).take(j as int));
    }
    assert(wanted@ =~= slot_ids(slots@));
    let positions = pick_positions(&wanted, &available, slots.len());
    let ghost order = picks(slot_ids(slots@), item_ids(all_games));
    proof {
        lemma_picks_bounded(wanted@, available@);
        assert(at_most(order, slots@.len()) == order);
    }
    let picked = gather(games, &positions);
    let ghost chosen = picked@;
    assert(chosen.len() == order.len()) by {
        assert(gathered(available@, positions@).len() == positions@.len());
    }
    let mut ordered: Vec<RecalledItem> = Vec::new();
    for item in it: picked
        invariant
            it.seq() == chosen,
            ordered@.len() == it.index(),
            forall|n: int|
                0 <= n < ordered@.len() ==> slotted(
                    #[trigger] ordered@[n],
                    chosen[n],
                    first_reason(slots@, id_or_max(chosen[n])).name(),
                ),
    {
        let mut item = item;
        let reason = reason_for(slots, json_app_id(&item));
        item.slot_reason = Some(slot_reason_str(reason).to_owned());
        ordered.push(item);
    }
    let ghost front = ordered@;
    for item in it: rest
        invariant
            it.seq() == all_rest,
            ordered@.len() == front.len() + it.index(),
            forall|n: int| 0 <= n < front.len() ==> ordered@[n] == front[n],
            forall|n: int|
                #![trigger all_rest[n]]
                0 <= n < it.index() ==> slotted(
                    ordered@[front.len() + n],
                    all_rest[n],
                    match all_rest[n].slot_reason {
                        Some(reason) => reason@,
                        None => "base"@,
                    },
                ),
    {
        let mut item = item;
        if item.slot_reason.is_none() {
            item.slot_reason = Some("base".to_owned());
        }
        ordered.push(item);
    }
    let ghost whole = ordered@;
    proof {
        assert forall|n: int| #![trigger order[n]] 0 <= n < order.len() implies ({
            let p = last_position(item_ids(all_games), order[n]);
            &&& p is Some
            &&& 0 <= p->0 < all_games.len()
            &&& slotted(whole[n], all_games[p->0], first_reason(slots@, order[n]).name())
        }) by {
            assert(gathered(available@, positions@)[n] == available@[positions@[n] as int]);
            assert(chosen[n] == all_games[positions@[n] as int]);
            assert(id_or_max(chosen[n]) == order[n]);
            assert(slotted(front[n], chosen[n], first_reason(slots@, id_or_max(chosen[n])).name()));
        }
        assert(reranked(whole, input, slots@));
    }
    refresh_json_ranking_metadata(ordered)
}

proof fn lemma_picks_bounded(wanted: Seq<u32>, available: Seq<u32>)
    ensures
        picks(wanted, available).len() <= wanted.len(),
    decreases wanted.len(),
{
    if wanted.len() > 0 {
        lemma_picks_bounded(wanted.drop_last(), available);
    }
}

/// `new` is `old` without what only internal ranking may see.
pub open spec fn stripped(new: RecalledItem, old: RecalledItem) -> bool {
    &&& new == (RecalledItem {
        taxonomy_tags: new.taxonomy_tags,
        publisher: None,
        series: None,
        ..old
    })
    &&& new.taxonomy_tags@.len() == 0
}

pub open spec fn all_stripped(new: Seq<RecalledItem>, old: Seq<RecalledItem>) -> bool {
    new.len() == old.len() && forall|i: int|
        0 <= i < new.len() ==> stripped(#[trigger] new[i], old[i])
}

/// Takes the internal ranking metadata out of the answer.
pub fn strip_internal_ranking_metadata(items: Vec<RecalledItem>) -> (r: Vec<RecalledItem>)
    ensures
        all_stripped(r@, items@),
{
    let ghost input = items@;
    let mut out: Vec<RecalledItem> = Vec::new();
    for item in it: items
        invariant
            it.seq() == input,
            out@.len() == it.index(),
            forall|n: int| 0 <= n < out@.len() ==> stripped(#[trigger] out@[n], input[n]),
    {
        let mut item = item;
        item.taxonomy_tags = Vec::new();
        item.publisher = None;
        item.series = None;
        out.push(item);
    }
    out
}

}
