//! From the rows of the catalog to the candidates that are ranked: who is let in, how much
//! feedback moves them, and what will be shown of them.

use vstd::prelude::*;

use crate::score::{Score, INFINITY_KEY, ONE_KEY};
use crate::server::feed::{
    admit_candidate, clamped, combined_feedback_personal_adjustment, effective_feature_count,
    excludes, feature_count, feedback_sum, intent_count, is_competitive, FeatureFacts,
    PlayIntent,
};
use crate::server::feed_query::ActiveFeedback;
use crate::server::ranking::{cover_of, resolve_feed_cover_url, FeedPresentation};
use crate::text::{opt_view, views};

verus! {

broadcast use vstd::std_specs::hash::group_hash_axioms;

/// A row of the catalog. `matches_section`, `matchmaking_core`, `multiplayer_confidence` and
/// `data_confidence` are what the row's signals say.
#[derive(Debug)]
pub struct CandidateRow {
    pub app_id: u32,
    pub has_demo: bool,
    pub matches_section: bool,
    pub matchmaking_core: Score,
    pub multiplayer_confidence: Vec<Score>,
    pub data_confidence: Score,
    pub release_date: Option<String>,
    pub release_date_raw: Option<String>,
    pub release_date_precision: Option<String>,
    pub cover_url: Option<String>,
    pub cover_updated_at_ms: Option<i64>,
    pub total_reviews: Option<u32>,
    pub total_positive: Option<u32>,
    pub latest_ccu: Option<u32>,
    pub typical_ccu_7d: Option<u32>,
    pub profile_observed_at_ms: Option<i64>,
    pub reviews_observed_at_ms: Option<i64>,
    pub activity_observed_at_ms: Option<i64>,
    pub price_observed_at_ms: Option<i64>,
    pub release_observed_at_ms: Option<i64>,
}

/// A candidate for the ranking: the row it comes from, by position, and what was made of it.
#[derive(Debug)]
pub struct Candidate {
    pub row: usize,
    pub app_id: u32,
    pub personal_adjustment: i32,
    pub play_intent_count: u32,
    pub presentation: FeedPresentation,
}

// ---------------------------------------------------------------------------
// Feedback on a game
// ---------------------------------------------------------------------------

/// The feedback on one game, in the order in which it was listed.
pub open spec fn feedback_on(active: Seq<ActiveFeedback>, app_id: u32) -> Seq<Seq<char>>
    decreases active.len(),
{
    if active.len() == 0 {
        Seq::empty()
    } else {
        let front = feedback_on(active.drop_last(), app_id);
        if active.last().app_id == app_id {
            front.push(active.last().feedback_type@)
        } else {
            front
        }
    }
}

fn feedback_of(active: &Vec<ActiveFeedback>, app_id: u32) -> (r: Vec<String>)
    ensures
        views(r@) == feedback_on(active@, app_id),
{
    let mut out: Vec<String> = Vec::new();
    let mut i: usize = 0;
    assert(views(out@) =~= Seq::empty());
    assert(active@.take(0) =~= Seq::empty());
    while i < active.len()
        invariant
            0 <= i <= active@.len(),
            views(out@) == feedback_on(active@.take(i as int), app_id),
        decreases active@.len() - i,
    {
        proof {
            let next = active@.take(i + 1);
            assert(next.drop_last() =~= active@.take(i as int));
            assert(next.last() == active@[i as int]);
        }
        if active[i].app_id == app_id {
            let kind: String = active[i].feedback_type.clone();
            proof {
                assert(views(out@.push(kind)) =~= views(out@).push(kind@));
            }
            out.push(kind);
        }
        i = i + 1;
    }
    assert(active@.take(active@.len() as int) =~= active@);
    out
}

// ---------------------------------------------------------------------------
// One row
// ---------------------------------------------------------------------------

/// The number itself where it lies between zero and one, and else the nearer of the two.
/// What is not a number stays as it is.
pub open spec fn unit_clamped(score: Score) -> Score {
    if !score.is_number() {
        score
    } else if score.value_rank() < 0 {
        Score { key: 0 }
    } else if score.value_rank() > ONE_KEY {
        Score { key: ONE_KEY }
    } else {
        score
    }
}

fn clamp_to_unit(score: Score) -> (r: Score)
    ensures
        r == unit_clamped(score),
{
    let low: i64 = -INFINITY_KEY - 1;
    if score.key < low || score.key > INFINITY_KEY {
        score
    } else if score.key < -1 {
        Score { key: 0 }
    } else if score.key > ONE_KEY {
        Score { key: ONE_KEY }
    } else {
        score
    }
}

pub open spec fn facts_of(row: CandidateRow) -> FeatureFacts {
    FeatureFacts {
        total_reviews: row.total_reviews,
        total_positive: row.total_positive,
        latest_ccu: row.latest_ccu,
        typical_ccu_7d: row.typical_ccu_7d,
        has_release_date: row.release_date is Some,
        has_demo: row.has_demo,
        multiplayer_confidence: row.multiplayer_confidence,
    }
}

/// A row is let in where it has a demo if one is asked for, belongs to the section, and no
/// feedback takes the game out.
pub open spec fn is_admitted(
    row: CandidateRow,
    active: Seq<ActiveFeedback>,
    demo_only: bool,
) -> bool {
    &&& demo_only ==> row.has_demo
    &&& row.matches_section
    &&& forall|i: int|
        0 <= i < feedback_on(active, row.app_id).len() ==> !excludes(
            #[trigger] feedback_on(active, row.app_id)[i],
        )
}

/// What is shown of a row. The time at which its release was observed counts only where it
/// has a release date.
pub open spec fn presents(shown: FeedPresentation, row: CandidateRow) -> bool {
    &&& shown == (FeedPresentation {
        release_date: row.release_date,
        release_date_raw: row.release_date_raw,
        release_date_precision: row.release_date_precision,
        cover_url: shown.cover_url,
        cover_updated_at_ms: row.cover_updated_at_ms,
        total_reviews: row.total_reviews,
        total_positive: row.total_positive,
        latest_ccu: row.latest_ccu,
        typical_ccu_7d: row.typical_ccu_7d,
        data_confidence: unit_clamped(row.data_confidence),
        effective_feature_count: shown.effective_feature_count,
        profile_observed_at_ms: row.profile_observed_at_ms,
        reviews_observed_at_ms: row.reviews_observed_at_ms,
        activity_observed_at_ms: row.activity_observed_at_ms,
        price_observed_at_ms: row.price_observed_at_ms,
        release_observed_at_ms: if row.release_date is Some {
            row.release_observed_at_ms
        } else {
            None
        },
    })
    &&& opt_view(shown.cover_url) == Some(cover_of(row.app_id, opt_view(row.cover_url)))
    &&& shown.effective_feature_count == feature_count(facts_of(row))
}

/// What is made of an admitted row.
pub open spec fn is_candidate(
    candidate: Candidate,
    row: CandidateRow,
    position: int,
    active: Seq<ActiveFeedback>,
    intent: PlayIntent,
) -> bool {
    &&& candidate.row == position
    &&& candidate.app_id == row.app_id
    &&& candidate.personal_adjustment == clamped(
        feedback_sum(feedback_on(active, row.app_id), is_competitive(row.matchmaking_core)),
        -50,
        50,
    )
    &&& candidate.play_intent_count == intent_count(intent, row.app_id)
    &&& presents(candidate.presentation, row)
}

fn candidate_from(
    row: CandidateRow,
    position: usize,
    feedback: &Vec<String>,
    intent: &PlayIntent,
) -> (r: Candidate)
    ensures
        forall|active: Seq<ActiveFeedback>|
            views(feedback@) == #[trigger] feedback_on(active, row.app_id) ==> is_candidate(
                r,
                row,
                position as int,
                active,
                *intent,
            ),
{
    let ghost given = row;
    let personal_adjustment: i32 = combined_feedback_personal_adjustment(
        feedback,
        row.matchmaking_core,
    );
    let play_intent_count: u32 = match intent.counts.get(&row.app_id) {
        Some(count) => *count,
        None => 0,
    };
    let facts = FeatureFacts {
        total_reviews: row.total_reviews,
        total_positive: row.total_positive,
        latest_ccu: row.latest_ccu,
        typical_ccu_7d: row.typical_ccu_7d,
        has_release_date: row.release_date.is_some(),
        has_demo: row.has_demo,
        multiplayer_confidence: row.multiplayer_confidence,
    };
    assert(facts == facts_of(given));
    let effective_feature_count: usize = effective_feature_count(&facts);
    let release_observed_at_ms = if row.release_date.is_some() {
        row.release_observed_at_ms
    } else {
        None
    };
    Candidate {
        row: position,
        app_id: row.app_id,
        personal_adjustment,
        play_intent_count,
        presentation: FeedPresentation {
            release_date: row.release_date,
            release_date_raw: row.release_date_raw,
            release_date_precision: row.release_date_precision,
            cover_url: resolve_feed_cover_url(row.app_id, row.cover_url),
            cover_updated_at_ms: row.cover_updated_at_ms,
            total_reviews: row.total_reviews,
            total_positive: row.total_positive,
            latest_ccu: row.latest_ccu,
            typical_ccu_7d: row.typical_ccu_7d,
            data_confidence: clamp_to_unit(row.data_confidence),
            effective_feature_count,
            profile_observed_at_ms: row.profile_observed_at_ms,
            reviews_observed_at_ms: row.reviews_observed_at_ms,
            activity_observed_at_ms: row.activity_observed_at_ms,
            price_observed_at_ms: row.price_observed_at_ms,
            release_observed_at_ms,
        },
    }
}

// ---------------------------------------------------------------------------
// All rows
// ---------------------------------------------------------------------------

/// The positions of the rows that are let in, in order.
pub open spec fn admitted_positions(
    rows: Seq<CandidateRow>,
    active: Seq<ActiveFeedback>,
    demo_only: bool,
) -> Seq<int>
    decreases rows.len(),
{
    if rows.len() == 0 {
        Seq::empty()
    } else {
        let front = admitted_positions(rows.drop_last(), active, demo_only);
        if is_admitted(rows.last(), active, demo_only) {
            front.push(rows.len() - 1)
        } else {
            front
        }
    }
}

/// `candidates` are the rows that are let in, in their order.
pub open spec fn are_candidates(
    candidates: Seq<Candidate>,
    rows: Seq<CandidateRow>,
    active: Seq<ActiveFeedback>,
    demo_only: bool,
    intent: PlayIntent,
) -> bool {
    let positions = admitted_positions(rows, active, demo_only);
    &&& candidates.len() == positions.len()
    &&& forall|i: int|
        #![trigger candidates[i]]
        0 <= i < candidates.len() ==> positions[i] >= 0 && positions[i] < rows.len()
            && is_candidate(
            candidates[i],
            rows[positions[i]],
            positions[i],
            active,
            intent,
        )
}

/// Makes candidates of the rows that are let in.
pub fn prepare_candidates(
    rows: Vec<CandidateRow>,
    active: &Vec<ActiveFeedback>,
    demo_only: bool,
    intent: &PlayIntent,
) -> (r: Vec<Candidate>)
    ensures
        are_candidates(r@, rows@, active@, demo_only, *intent),
{
    let ghost input = rows@;
    let mut out: Vec<Candidate> = Vec::new();
    let mut position: usize = 0;
    let count: usize = rows.len();
    assert(input.take(0) =~= Seq::empty());
    for row in it: rows
        invariant
            it.seq() == input,
            position == it.index(),
            count == input.len(),
            are_candidates(out@, input.take(it.index()), active@, demo_only, *intent),
    {
        let ghost before = input.take(it.index());
        let ghost next = input.take(it.index() + 1);
        let ghost earlier = out@;
        let ghost given = row;
        proof {
            assert(next.drop_last() =~= before);
            assert(next.last() == given);
        }
        let feedback = feedback_of(active, row.app_id);
        let admitted = admit_candidate(demo_only, row.has_demo, &feedback, row.matches_section);
        proof {
            let on = feedback_on(active@, row.app_id);
            assert(views(feedback@) == on);
            assert(forall|i: int| 0 <= i < feedback@.len() ==> #[trigger] on[i] == feedback@[i]@);
            assert(admitted == is_admitted(row, active@, demo_only)) by {
                if admitted {
                    assert forall|i: int| 0 <= i < on.len() implies !excludes(
                        #[trigger] on[i],
                    ) by {
                        assert(on[i] == feedback@[i]@);
                    }
                } else if is_admitted(row, active@, demo_only) {
                    assert forall|i: int| 0 <= i < feedback@.len() implies !excludes(
                        (#[trigger] feedback@[i])@,
                    ) by {
                        assert(on[i] == feedback@[i]@);
                    }
                }
            }
        }
        if admitted {
            let candidate = candidate_from(row, position, &feedback, intent);
            assert(is_candidate(candidate, given, position as int, active@, *intent));
            out.push(candidate);
        }
        proof {
            let positions = admitted_positions(next, active@, demo_only);
            let front = admitted_positions(before, active@, demo_only);
            assert(positions == (if admitted {
                front.push(next.len() - 1)
            } else {
                front
            }));
            assert forall|i: int|
                #![trigger out@[i]]
                #![trigger positions[i]]
                0 <= i < out@.len() implies positions[i] >= 0 && positions[i] < next.len()
                && is_candidate(
                out@[i],
                next[positions[i]],
                positions[i],
                active@,
                *intent,
            ) by {
                if i < earlier.len() {
                    assert(out@[i] == earlier[i]);
                    assert(positions[i] == front[i]);
                    assert(next[front[i]] == before[front[i]]);
                } else {
                    assert(positions[i] == next.len() - 1);
                    assert(next[positions[i]] == given);
                }
            }
        }
        position = position + 1;
    }
    assert(input.take(input.len() as int) =~= input);
    out
}

proof fn lemma_positions_in_order(
    rows: Seq<CandidateRow>,
    active: Seq<ActiveFeedback>,
    demo_only: bool,
)
    ensures
        forall|i: int|
            #![trigger admitted_positions(rows, active, demo_only)[i]]
            0 <= i < admitted_positions(rows, active, demo_only).len() ==> {
                let p = admitted_positions(rows, active, demo_only)[i];
                0 <= p < rows.len() && is_admitted(rows[p], active, demo_only)
            },
        forall|i: int, j: int|
            0 <= i < j < admitted_positions(rows, active, demo_only).len()
                ==> #[trigger] admitted_positions(rows, active, demo_only)[i]
                < #[trigger] admitted_positions(rows, active, demo_only)[j],
    decreases rows.len(),
{
    if rows.len() > 0 {
        let before = rows.drop_last();
        lemma_positions_in_order(before, active, demo_only);
        let front = admitted_positions(before, active, demo_only);
        let all = admitted_positions(rows, active, demo_only);
        assert forall|i: int| #![trigger all[i]] 0 <= i < all.len() implies 0 <= all[i]
            < rows.len() && is_admitted(rows[all[i]], active, demo_only) by {
            if i < front.len() {
                assert(all[i] == front[i]);
                assert(rows[front[i]] == before[front[i]]);
            }
        }
        assert forall|i: int, j: int| 0 <= i < j < all.len() implies #[trigger] all[i]
            < #[trigger] all[j] by {
            assert(all[i] == front[i]);
            if j < front.len() {
                assert(all[j] == front[j]);
            }
        }
    }
}

/// A game that a player has turned down, or that does not suit the size of their party, is
/// never a candidate, and where demos are asked for only games with one are. Candidates keep
/// the order of their rows.
pub proof fn lemma_candidates_respect_feedback(
    candidates: Seq<Candidate>,
    rows: Seq<CandidateRow>,
    active: Seq<ActiveFeedback>,
    demo_only: bool,
    intent: PlayIntent,
)
    requires
        are_candidates(candidates, rows, active, demo_only, intent),
    ensures
        forall|i: int, k: int|
            0 <= i < candidates.len() && 0 <= k < active.len() && (#[trigger] active[k]).app_id == (
            #[trigger] candidates[i]).app_id ==> !excludes(active[k].feedback_type@),
        forall|i: int|
            0 <= i < candidates.len() && demo_only ==> rows[(
            #[trigger] candidates[i]).row as int].has_demo,
        forall|i: int, j: int|
            0 <= i < j < candidates.len() ==> (#[trigger] candidates[i]).row < (
            #[trigger] candidates[j]).row,
{
    lemma_positions_in_order(rows, active, demo_only);
    let positions = admitted_positions(rows, active, demo_only);
    assert forall|i: int, k: int|
        0 <= i < candidates.len() && 0 <= k < active.len() && (#[trigger] active[k]).app_id == (
        #[trigger] candidates[i]).app_id implies !excludes(active[k].feedback_type@) by {
        let row = rows[positions[i]];
        assert(is_admitted(row, active, demo_only));
        lemma_feedback_is_listed(active, row.app_id, k);
    }
    assert forall|i: int| 0 <= i < candidates.len() && demo_only implies rows[(
    #[trigger] candidates[i]).row as int].has_demo by {
        assert(is_admitted(rows[positions[i]], active, demo_only));
    }
    assert forall|i: int, j: int| 0 <= i < j < candidates.len() implies (
    #[trigger] candidates[i]).row < (#[trigger] candidates[j]).row by {
        assert(positions[i] < positions[j]);
    }
}

proof fn lemma_feedback_is_listed(active: Seq<ActiveFeedback>, app_id: u32, k: int)
    requires
        0 <= k < active.len(),
        active[k].app_id == app_id,
    ensures
        exists|n: int|
            0 <= n < feedback_on(active, app_id).len() && #[trigger] feedback_on(active, app_id)[n]
                == active[k].feedback_type@,
    decreases active.len(),
{
    let front = feedback_on(active.drop_last(), app_id);
    let all = feedback_on(active, app_id);
    if k == active.len() - 1 {
        assert(all[front.len() as int] == active[k].feedback_type@);
    } else {
        lemma_feedback_is_listed(active.drop_last(), app_id, k);
        let n = choose|n: int|
            0 <= n < front.len() && #[trigger] front[n] == active.drop_last()[k].feedback_type@;
        assert(all[n] == front[n]);
    }
}

}
