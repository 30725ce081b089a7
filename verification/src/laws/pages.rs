//! The pages of a feed, and what comes to stand on them.

use vstd::prelude::*;

use crate::score::Score;
use crate::server::candidates::{
    admitted_positions, feedback_on, prepare_candidates, Candidate, CandidateRow,
};
use crate::server::feed::{
    admit_candidate, combined_feedback_personal_adjustment, effective_feature_count,
    feedback_personal_adjustment, lay_out_page, FeatureFacts, FeedBody, PlayIntent,
};
use crate::server::feed_query::{ActiveFeedback, FeedPlan};
use crate::server::ranking::{row_ids, select_internal_recall_candidates, FeedRow};
use crate::server::recall::{
    build_natural_language_candidate_pool, hit_ids, item_ids, merge_recalled, merged, one_per_game,
    HybridHit, PoolOrder, RecalledItem,
};
use crate::sort::{picks, stable_sorted};
use crate::text::views;

verus! {

// ---------------------------------------------------------------------------
// One page
// ---------------------------------------------------------------------------

/// A page shows the rows from its offset on, as many as fit, each with its place in the whole
/// feed, with its votes, and whether the reader has voted.
pub proof fn law_page_shows_its_rows(
    rows: Vec<FeedRow>,
    plan: FeedPlan,
    offset: usize,
    intent: PlayIntent,
    internal: bool,
    section: &str,
    snapshot_ms: i64,
    context: &str,
    r: FeedBody,
    i: int,
)
    requires
        plan.limit >= 1,
        offset / plan.limit < usize::MAX,
        call_ensures(
            lay_out_page,
            (rows, &plan, offset, &intent, internal, section, snapshot_ms, context),
            r,
        ),
    ensures
        0 <= i < r.items@.len() <==> 0 <= i < plan.limit && offset + i < rows@.len(),
        0 <= i < r.items@.len() ==> {
            let item = r.items@[i];
            let row = rows@[offset + i];
            let id = row.candidate.app_id;
            &&& item.candidate == row.candidate
            &&& item.presentation == row.presentation
            &&& item.rank == offset + i + 1
            &&& item.play_intent_count == if intent.counts@.dom().contains(id) {
                intent.counts@[id]
            } else {
                0
            }
            &&& item.play_intent_voted <==> intent.user_votes@.contains(id)
            &&& item.with_ranking_metadata == internal
            &&& item.cover_url is Some
            &&& item.recommendation_index is Some ==> {
                let p = row.presentation->0;
                row.presentation is Some && p.effective_feature_count >= 3
                    && 0x3fdc_cccc_cccc_cccd <= p.data_confidence.key <= 0x7ff0_0000_0000_0000
            }
        },
{
    let shown = crate::server::ranking::window(rows@, offset as nat, plan.limit as nat);
    if 0 <= i < shown.len() {
        assert(shown[i] == rows@[offset + i]);
    }
}

/// The page says how many rows and pages there are and which of them it is: the rows of a page
/// with number `page` are those from `(page - 1) * limit` on, and the last page is the first one
/// that reaches the end. There is a cursor to the next page exactly where rows are left.
pub proof fn law_page_counts_its_pages(
    rows: Vec<FeedRow>,
    plan: FeedPlan,
    offset: usize,
    intent: PlayIntent,
    internal: bool,
    section: &str,
    snapshot_ms: i64,
    context: &str,
    r: FeedBody,
)
    requires
        plan.limit >= 1,
        offset / plan.limit < usize::MAX,
        call_ensures(
            lay_out_page,
            (rows, &plan, offset, &intent, internal, section, snapshot_ms, context),
            r,
        ),
    ensures
        r.total == rows@.len(),
        r.limit == plan.limit,
        r.offset == offset,
        (r.page - 1) * plan.limit <= offset < r.page * plan.limit,
        r.total_pages * plan.limit >= r.total,
        r.total > 0 ==> (r.total_pages - 1) * plan.limit < r.total,
        r.total == 0 ==> r.total_pages == 0,
        r.next_cursor is Some <==> offset + plan.limit < r.total,
        r.sort == plan.sort,
        r.order is None <==> plan.sort is Recommended,
        r.order is Some ==> r.order->0 == plan.order,
        r.candidate_ids@.len() == rows@.len(),
        forall|k: int|
            0 <= k < rows@.len() ==> #[trigger] r.candidate_ids@[k] == rows@[k].candidate.app_id,
{
    let limit = plan.limit as int;
    let total = rows@.len() as int;
    vstd::arithmetic::div_mod::lemma_fundamental_div_mod(offset as int, limit);
    vstd::arithmetic::div_mod::lemma_mod_pos_bound(offset as int, limit);
    let q = offset as int / limit;
    assert(r.page == q + 1);
    assert(q * limit <= offset < (q + 1) * limit) by (nonlinear_arith)
        requires
            offset as int == limit * q + offset as int % limit,
            0 <= offset as int % limit < limit,
    ;
    let x = total + limit - 1;
    vstd::arithmetic::div_mod::lemma_fundamental_div_mod(x, limit);
    vstd::arithmetic::div_mod::lemma_mod_pos_bound(x, limit);
    let p = x / limit;
    assert(r.total_pages == p);
    assert(p * limit >= total && (p - 1) * limit < total) by (nonlinear_arith)
        requires
            x == limit * p + x % limit,
            0 <= x % limit < limit,
            x == total + limit - 1,
    ;
    if total == 0 {
        assert(p == 0) by (nonlinear_arith)
            requires
                x == limit * p + x % limit,
                0 <= x % limit < limit,
                x == limit - 1,
        ;
    }
    assert forall|k: int| 0 <= k < rows@.len() implies #[trigger] r.candidate_ids@[k]
        == rows@[k].candidate.app_id by {
        assert(row_ids(rows@)[k] == rows@[k].candidate.app_id);
    }
}

// ---------------------------------------------------------------------------
// What is let in, and how feedback moves it
// ---------------------------------------------------------------------------

/// Somebody's feedback of this kind stands in the list.
pub open spec fn was_said(feedback: Seq<String>, kind: Seq<char>) -> bool {
    exists|i: int| 0 <= i < feedback.len() && (#[trigger] feedback[i])@ == kind
}

/// A game is let in exactly where it is of the section, has a demo if one is asked for, and was
/// not turned down.
pub proof fn law_games_are_let_in(
    demo_only: bool,
    has_demo: bool,
    feedback: Vec<String>,
    matches_section: bool,
    r: bool,
)
    requires
        call_ensures(admit_candidate, (demo_only, has_demo, &feedback, matches_section), r),
    ensures
        !matches_section ==> !r,
        demo_only && !has_demo ==> !r,
        was_said(feedback@, "not_interested"@) ==> !r,
        was_said(feedback@, "party_size_mismatch"@) ==> !r,
        matches_section && (has_demo || !demo_only) && !was_said(feedback@, "not_interested"@)
            && !was_said(feedback@, "party_size_mismatch"@) ==> r,
{
    if !r && matches_section && (has_demo || !demo_only) {
        let i = choose|i: int|
            0 <= i < feedback@.len() && crate::server::feed::excludes((#[trigger] feedback@[i])@);
        assert(feedback@[i]@ == "not_interested"@ || feedback@[i]@ == "party_size_mismatch"@);
    }
}

/// What one feedback is worth, in hundredths: a like twenty, a game already played minus ten,
/// one that was too competitive minus thirty where the game lives on matches and minus fifteen
/// where it does not, trouble with hosting minus fifteen, and anything else nothing.
pub proof fn law_worth_of_feedback(kind: &str, matchmaking_core: Score, r: i32)
    requires
        call_ensures(feedback_personal_adjustment, (Some(kind), matchmaking_core), r),
    ensures
        kind@ == "like"@ ==> r == 20,
        kind@ == "played"@ ==> r == -10,
        kind@ == "too_competitive"@ && 0x3fe0_0000_0000_0000 <= matchmaking_core.key
            <= 0x7ff0_0000_0000_0000 ==> r == -30,
        kind@ == "too_competitive"@ && matchmaking_core.key < 0x3fe0_0000_0000_0000 ==> r == -15,
        kind@ == "hosting_friction"@ ==> r == -15,
        r == 0 <==> kind@ != "like"@ && kind@ != "played"@ && kind@ != "too_competitive"@ && kind@
            != "hosting_friction"@,
{
    reveal_strlit("like");
    reveal_strlit("played");
    reveal_strlit("too_competitive");
    reveal_strlit("hosting_friction");
    assert("like"@.len() == 4 && "played"@.len() == 6 && "too_competitive"@.len() == 15
        && "hosting_friction"@.len() == 16);
}

/// Feedback adds up: one more moves the sum by its own worth, within fifty hundredths either
/// way; without any nothing moves.
pub proof fn law_feedback_adds_up(
    feedback: Vec<String>,
    more: Vec<String>,
    kind: &str,
    matchmaking_core: Score,
    r: i32,
    s: i32,
    worth: i32,
)
    requires
        more@.len() == feedback@.len() + 1,
        more@.drop_last() == feedback@,
        more@.last()@ == kind@,
        call_ensures(combined_feedback_personal_adjustment, (&feedback, matchmaking_core), r),
        call_ensures(combined_feedback_personal_adjustment, (&more, matchmaking_core), s),
        call_ensures(feedback_personal_adjustment, (Some(kind), matchmaking_core), worth),
    ensures
        -50 <= r <= 50,
        feedback@.len() == 0 ==> r == 0,
        -50 < r < 50 ==> s == if r + worth > 50 {
            50
        } else if r + worth < -50 {
            -50
        } else {
            r + worth
        },
{
    assert(views(more@).drop_last() =~= views(feedback@));
    assert(views(more@).last() == kind@);
}

/// Each of five things that is known of a game counts one: its reviews, its players, its release
/// date, its ways of playing together, its demo. Where the two differ in one of them, they differ
/// by one; where nothing is known the count is zero.
pub proof fn law_each_known_feature_counts_one(
    facts: FeatureFacts,
    other: FeatureFacts,
    r: usize,
    s: usize,
)
    requires
        call_ensures(effective_feature_count, (&facts,), r),
        call_ensures(effective_feature_count, (&other,), s),
    ensures
        ({
            let reviews = |f: FeatureFacts|
                f.total_reviews is Some && f.total_reviews->0 != 0 && f.total_positive is Some;
            let players = |f: FeatureFacts| f.latest_ccu is Some || f.typical_ccu_7d is Some;
            let together = |f: FeatureFacts|
                exists|i: int|
                    0 <= i < f.multiplayer_confidence@.len() && 0 < (
                    #[trigger] f.multiplayer_confidence@[i]).key <= 0x7ff0_0000_0000_0000;
            let same_reviews = reviews(facts) == reviews(other);
            let same_players = players(facts) == players(other);
            let same_date = facts.has_release_date == other.has_release_date;
            let same_demo = facts.has_demo == other.has_demo;
            let same_together = together(facts) == together(other);
            &&& !reviews(facts) && !players(facts) && !facts.has_release_date && !facts.has_demo
                && !together(facts) ==> r == 0
            &&& same_reviews && same_players && same_date && same_demo && same_together ==> r == s
            &&& reviews(facts) && !reviews(other) && same_players && same_date && same_demo
                && same_together ==> r == s + 1
            &&& players(facts) && !players(other) && same_reviews && same_date && same_demo
                && same_together ==> r == s + 1
            &&& facts.has_release_date && !other.has_release_date && same_reviews && same_players
                && same_demo && same_together ==> r == s + 1
            &&& facts.has_demo && !other.has_demo && same_reviews && same_players && same_date
                && same_together ==> r == s + 1
            &&& together(facts) && !together(other) && same_reviews && same_players && same_date
                && same_demo ==> r == s + 1
        }),
{
    assert((exists|i: int|
        0 <= i < facts.multiplayer_confidence@.len() && crate::server::feed::positive(
            #[trigger] facts.multiplayer_confidence@[i],
        )) == (exists|i: int|
        0 <= i < facts.multiplayer_confidence@.len() && 0 < (
        #[trigger] facts.multiplayer_confidence@[i]).key <= 0x7ff0_0000_0000_0000));
    assert((exists|i: int|
        0 <= i < other.multiplayer_confidence@.len() && crate::server::feed::positive(
            #[trigger] other.multiplayer_confidence@[i],
        )) == (exists|i: int|
        0 <= i < other.multiplayer_confidence@.len() && 0 < (
        #[trigger] other.multiplayer_confidence@[i]).key <= 0x7ff0_0000_0000_0000));
}

// ---------------------------------------------------------------------------
// Candidates
// ---------------------------------------------------------------------------

/// The reader has said this about the game.
pub open spec fn said_of(active: Seq<ActiveFeedback>, app_id: u32, kind: Seq<char>) -> bool {
    exists|i: int|
        0 <= i < active.len() && (#[trigger] active[i]).app_id == app_id && active[i].feedback_type@
            == kind
}

proof fn lemma_feedback_on(active: Seq<ActiveFeedback>, app_id: u32, kind: Seq<char>)
    ensures
        feedback_on(active, app_id).contains(kind) <==> said_of(active, app_id, kind),
    decreases active.len(),
{
    if active.len() > 0 {
        let front = active.drop_last();
        lemma_feedback_on(front, app_id, kind);
        let kept = feedback_on(front, app_id);
        let all = feedback_on(active, app_id);
        if said_of(active, app_id, kind) {
            let i = choose|i: int|
                0 <= i < active.len() && (#[trigger] active[i]).app_id == app_id
                    && active[i].feedback_type@ == kind;
            if i < front.len() {
                assert(front[i] == active[i]);
                assert(said_of(front, app_id, kind));
                let k = choose|k: int| 0 <= k < kept.len() && kept[k] == kind;
                assert(all[k] == kind);
            } else {
                assert(all[kept.len() as int] == kind);
            }
        }
        if all.contains(kind) {
            let k = choose|k: int| 0 <= k < all.len() && all[k] == kind;
            if k < kept.len() {
                assert(kept[k] == kind);
                let i = choose|i: int|
                    0 <= i < front.len() && (#[trigger] front[i]).app_id == app_id
                        && front[i].feedback_type@ == kind;
                assert(active[i].app_id == app_id && active[i].feedback_type@ == kind);
            } else {
                let n = active.len() - 1;
                assert(active[n].app_id == app_id && active[n].feedback_type@ == kind);
            }
        }
    }
}

/// The row is one that the feed may rank.
pub open spec fn may_be_ranked(
    row: CandidateRow,
    active: Seq<ActiveFeedback>,
    demo_only: bool,
) -> bool {
    &&& row.matches_section
    &&& row.has_demo || !demo_only
    &&& !said_of(active, row.app_id, "not_interested"@)
    &&& !said_of(active, row.app_id, "party_size_mismatch"@)
}

proof fn lemma_admitted(row: CandidateRow, active: Seq<ActiveFeedback>, demo_only: bool)
    ensures
        crate::server::candidates::is_admitted(row, active, demo_only) <==> may_be_ranked(
            row,
            active,
            demo_only,
        ),
{
    let list = feedback_on(active, row.app_id);
    lemma_feedback_on(active, row.app_id, "not_interested"@);
    lemma_feedback_on(active, row.app_id, "party_size_mismatch"@);
    if list.contains("not_interested"@) {
        let k = choose|k: int| 0 <= k < list.len() && list[k] == "not_interested"@;
        assert(crate::server::feed::excludes(list[k]));
    }
    if list.contains("party_size_mismatch"@) {
        let k = choose|k: int| 0 <= k < list.len() && list[k] == "party_size_mismatch"@;
        assert(crate::server::feed::excludes(list[k]));
    }
}

proof fn lemma_positions(rows: Seq<CandidateRow>, active: Seq<ActiveFeedback>, demo_only: bool)
    ensures
        forall|i: int|
            0 <= i < rows.len() ==> (admitted_positions(rows, active, demo_only).contains(i)
                <==> may_be_ranked(#[trigger] rows[i], active, demo_only)),
        forall|k: int|
            0 <= k < admitted_positions(rows, active, demo_only).len() ==> 0
                <= #[trigger] admitted_positions(rows, active, demo_only)[k] < rows.len(),
        forall|j: int, k: int|
            0 <= j < k < admitted_positions(rows, active, demo_only).len()
                ==> #[trigger] admitted_positions(rows, active, demo_only)[j]
                < #[trigger] admitted_positions(rows, active, demo_only)[k],
    decreases rows.len(),
{
    if rows.len() > 0 {
        let front = rows.drop_last();
        lemma_positions(front, active, demo_only);
        lemma_admitted(rows.last(), active, demo_only);
        let kept = admitted_positions(front, active, demo_only);
        let all = admitted_positions(rows, active, demo_only);
        assert forall|i: int| 0 <= i < rows.len() implies (all.contains(i) <==> may_be_ranked(
            #[trigger] rows[i],
            active,
            demo_only,
        )) by {
            if i < front.len() {
                assert(front[i] == rows[i]);
            }
            if kept.contains(i) {
                let k = choose|k: int| 0 <= k < kept.len() && kept[k] == i;
                assert(all[k] == i);
            }
            if i == front.len() && may_be_ranked(rows[i], active, demo_only) {
                assert(all[kept.len() as int] == i);
            }
            if all.contains(i) && i < front.len() {
                let k = choose|k: int| 0 <= k < all.len() && all[k] == i;
                assert(kept[k] == i);
            }
        }
    }
}

/// Exactly the rows that may be ranked become candidates, each once and in their order, and each
/// candidate shows its own row: the game, the counts that are known of it, a confidence between
/// zero and one, and a release observation only beside a release date.
pub proof fn law_candidates_are_the_rows_let_in(
    rows: Vec<CandidateRow>,
    active: Vec<ActiveFeedback>,
    demo_only: bool,
    intent: PlayIntent,
    r: Vec<Candidate>,
    i: int,
    k: int,
)
    requires
        call_ensures(prepare_candidates, (rows, &active, demo_only, &intent), r),
        0 <= i < rows@.len(),
    ensures
        may_be_ranked(rows@[i], active@, demo_only) <==> exists|c: int|
            0 <= c < r@.len() && (#[trigger] r@[c]).row == i,
        0 <= k < r@.len() ==> {
            let c = r@[k];
            let row = rows@[c.row as int];
            &&& c.row < rows@.len()
            &&& may_be_ranked(row, active@, demo_only)
            &&& c.app_id == row.app_id
            &&& -50 <= c.personal_adjustment <= 50
            &&& c.play_intent_count == if intent.counts@.dom().contains(row.app_id) {
                intent.counts@[row.app_id]
            } else {
                0
            }
            &&& c.presentation.total_reviews == row.total_reviews
            &&& c.presentation.latest_ccu == row.latest_ccu
            &&& c.presentation.typical_ccu_7d == row.typical_ccu_7d
            &&& c.presentation.release_date == row.release_date
            &&& row.release_date is None ==> c.presentation.release_observed_at_ms is None
            &&& row.release_date is Some ==> c.presentation.release_observed_at_ms
                == row.release_observed_at_ms
            &&& -1 <= row.data_confidence.key <= 0x3ff0_0000_0000_0000
                ==> c.presentation.data_confidence == row.data_confidence
            &&& 0x3ff0_0000_0000_0000 < row.data_confidence.key <= 0x7ff0_0000_0000_0000
                ==> c.presentation.data_confidence.key == 0x3ff0_0000_0000_0000
            &&& -0x7ff0_0000_0000_0001 <= row.data_confidence.key < -1
                ==> c.presentation.data_confidence.key == 0
        },
        forall|a: int, b: int|
            0 <= a < b < r@.len() ==> (#[trigger] r@[a]).row < (#[trigger] r@[b]).row,
{
    let positions = admitted_positions(rows@, active@, demo_only);
    lemma_positions(rows@, active@, demo_only);
    assert(positions.contains(i) <==> may_be_ranked(rows@[i], active@, demo_only));
    if positions.contains(i) {
        let c = choose|c: int| 0 <= c < positions.len() && positions[c] == i;
        assert(r@[c].row == i);
    }
    if exists|c: int| 0 <= c < r@.len() && (#[trigger] r@[c]).row == i {
        let c = choose|c: int| 0 <= c < r@.len() && (#[trigger] r@[c]).row == i;
        assert(positions[c] == i);
    }
    if 0 <= k < r@.len() {
        assert(r@[k].row == positions[k]);
        assert(positions.contains(positions[k]));
        assert(may_be_ranked(rows@[positions[k]], active@, demo_only));
    }
}

// ---------------------------------------------------------------------------
// Recall
// ---------------------------------------------------------------------------

/// The relevance by which recalled games are weighed: the one among the components, else the
/// score, and below everything where neither is a finite number.
pub open spec fn weight_of(item: RecalledItem) -> int {
    let own = if item.components is Some && item.components->0.relevance_score is Some {
        item.components->0.relevance_score
    } else {
        item.score
    };
    let key = if own is Some && -0x7ff0_0000_0000_0000 <= own->0.key < 0x7ff0_0000_0000_0000 {
        own->0.key as int
    } else {
        -0x7ff0_0000_0000_0001
    };
    if key < 0 {
        key + 1
    } else {
        key
    }
}

#[verifier::spinoff_prover]
#[verifier::rlimit(50)]
proof fn lemma_merged(items: Seq<RecalledItem>)
    ensures
        one_per_game(merged(items)),
        forall|k: int|
            0 <= k < merged(items).len() ==> items.contains(#[trigger] merged(items)[k]),
        forall|i: int|
            0 <= i < items.len() && (#[trigger] items[i]).app_id is Some ==> exists|k: int|
                0 <= k < merged(items).len() && (#[trigger] merged(items)[k]).app_id
                    == items[i].app_id && weight_of(merged(items)[k]) >= weight_of(items[i]),
    decreases items.len(),
{
    if items.len() > 0 {
        let front = items.drop_last();
        let item = items.last();
        let union = merged(front);
        let all = merged(items);
        lemma_merged(front);
        assert(items[items.len() - 1] == item);
        assert forall|x: RecalledItem| front.contains(x) implies #[trigger] items.contains(x) by {
            let k = choose|k: int| 0 <= k < front.len() && front[k] == x;
            assert(items[k] == x);
        }
        if item.app_id is Some {
            let id = item.app_id->0;
            let ids = item_ids(union);
            crate::sort::lemma_last_position(ids, id);
            let place = crate::sort::last_position(ids, id);
            if place is None {
                assert(all =~= union.push(item));
                assert(item_ids(all) =~= ids.push(id));
                assert(!ids.contains(id));
                assert forall|i: int| 0 <= i < items.len() && (
                #[trigger] items[i]).app_id is Some implies exists|k: int|
                    0 <= k < all.len() && (#[trigger] all[k]).app_id == items[i].app_id
                        && weight_of(all[k]) >= weight_of(items[i]) by {
                    if i < front.len() {
                        assert(items[i] == front[i]);
                        let k = choose|k: int|
                            0 <= k < union.len() && (#[trigger] union[k]).app_id == front[i].app_id
                                && weight_of(union[k]) >= weight_of(front[i]);
                        assert(all[k] == union[k]);
                    } else {
                        assert(all[union.len() as int] == item);
                    }
                }
            } else {
                let p = place->0;
                assert(ids[p] == id);
                assert(union[p].app_id == Some(id));
                assert(item_ids(all) =~= ids);
                assert forall|i: int| 0 <= i < items.len() && (
                #[trigger] items[i]).app_id is Some implies exists|k: int|
                    0 <= k < all.len() && (#[trigger] all[k]).app_id == items[i].app_id
                        && weight_of(all[k]) >= weight_of(items[i]) by {
                    if i < front.len() {
                        assert(items[i] == front[i]);
                        let k = choose|k: int|
                            0 <= k < union.len() && (#[trigger] union[k]).app_id == front[i].app_id
                                && weight_of(union[k]) >= weight_of(front[i]);
                        if k == p {
                            assert(all[p].app_id == Some(id));
                        } else {
                            assert(all[k] == union[k]);
                        }
                    } else {
                        assert(all[p].app_id == Some(id));
                    }
                }
            }
        } else {
            assert(all == union);
            assert forall|i: int| 0 <= i < items.len() && (
            #[trigger] items[i]).app_id is Some implies exists|k: int|
                0 <= k < all.len() && (#[trigger] all[k]).app_id == items[i].app_id && weight_of(
                    all[k],
                ) >= weight_of(items[i]) by {
                assert(items[i] == front[i]);
            }
        }
    }
}

/// Merging keeps one entry of every game that was recalled, and of several the one with the
/// highest relevance; it makes up none.
pub proof fn law_merging_keeps_the_most_relevant(
    items: Vec<RecalledItem>,
    r: Vec<RecalledItem>,
    i: int,
    k: int,
)
    requires
        call_ensures(merge_recalled, (items,), r),
        0 <= i < items@.len(),
        items@[i].app_id is Some,
        0 <= k < r@.len(),
    ensures
        items@.contains(r@[k]),
        r@[k].app_id is Some,
        forall|j: int| 0 <= j < r@.len() && j != k ==> (#[trigger] r@[j]).app_id != r@[k].app_id,
        exists|j: int| 0 <= j < r@.len() && (#[trigger] r@[j]).app_id == items@[i].app_id,
        r@[k].app_id == items@[i].app_id ==> weight_of(r@[k]) >= weight_of(items@[i]),
{
    lemma_merged(items@);
    let j = choose|j: int|
        0 <= j < merged(items@).len() && (#[trigger] merged(items@)[j]).app_id == items@[i].app_id
            && weight_of(merged(items@)[j]) >= weight_of(items@[i]);
    assert(r@[j].app_id == items@[i].app_id);
    assert forall|a: int, b: int| 0 <= a < r@.len() && 0 <= b < r@.len() && a != b implies (
    #[trigger] r@[a]).app_id != (#[trigger] r@[b]).app_id by {
        assert(item_ids(r@)[a] == crate::server::recall::id_or_max(r@[a]));
        assert(item_ids(r@)[b] == crate::server::recall::id_or_max(r@[b]));
        assert(r@[a].app_id is Some && r@[b].app_id is Some);
    }
}

/// Before any place where a later pick is wanted there is one where an earlier pick is wanted.
pub(crate) proof fn lemma_picks_order(
    wanted: Seq<u32>,
    available: Seq<u32>,
    i: int,
    j: int,
    b: int,
)
    requires
        0 <= i < j < picks(wanted, available).len(),
        0 <= b < wanted.len(),
        wanted[b] == picks(wanted, available)[j],
    ensures
        exists|a: int| 0 <= a < b && #[trigger] wanted[a] == picks(wanted, available)[i],
    decreases wanted.len(),
{
    let short = wanted.drop_last();
    let front = picks(short, available);
    let all = picks(wanted, available);
    crate::sort::lemma_picks_members(short, available);
    assert(front.contains(front[i]));
    assert(all[i] == front[i]);
    if b == wanted.len() - 1 {
        assert(short.contains(all[i]));
        let a = choose|a: int| 0 <= a < short.len() && short[a] == all[i];
        assert(wanted[a] == all[i]);
    } else {
        assert(short[b] == wanted[b]);
        if j < front.len() {
            assert(all[j] == front[j]);
            lemma_picks_order(short, available, i, j, b);
            let a = choose|a: int| 0 <= a < b && #[trigger] short[a] == front[i];
            assert(wanted[a] == all[i]);
        } else {
            assert(short.contains(all[j]));
            assert(front.contains(all[j]));
        }
    }
}

proof fn lemma_same_members_same_length(a: Seq<u32>, b: Seq<u32>)
    requires
        a.no_duplicates(),
        b.no_duplicates(),
        forall|id: u32| a.contains(id) <==> #[trigger] b.contains(id),
    ensures
        a.len() == b.len(),
{
    a.unique_seq_to_set();
    b.unique_seq_to_set();
    assert(a.to_set() =~= b.to_set()) by {
        assert forall|id: u32| a.to_set().contains(id) <==> b.to_set().contains(id) by {
            assert(a.contains(id) <==> b.contains(id));
        }
    }
}

/// Some hit names the game.
pub open spec fn is_hit(hits: Seq<HybridHit>, id: u32) -> bool {
    exists|k: int| 0 <= k < hits.len() && (#[trigger] hits[k]).app_id == id
}

/// The pool holds as many of the eligible games as the limit allows: first those that were hit,
/// in the order of the hits, then the others by falling relevance, the lower identifier first
/// where relevance is equal. A game that was hit carries the hit's score.
pub proof fn law_pool_takes_hits_first(
    eligible: Vec<RecalledItem>,
    hits: Vec<HybridHit>,
    limit: usize,
    r: Vec<RecalledItem>,
    i: int,
    j: int,
)
    requires
        one_per_game(eligible@),
        call_ensures(build_natural_language_candidate_pool, (eligible, &hits, limit), r),
        0 <= i < j < r@.len(),
    ensures
        r@.len() == if eligible@.len() < limit {
            eligible@.len() as int
        } else {
            limit as int
        },
        r@[i].app_id is Some && r@[j].app_id is Some,
        is_hit(hits@, r@[j].app_id->0) ==> is_hit(hits@, r@[i].app_id->0),
        !is_hit(hits@, r@[i].app_id->0) ==> {
            let a = weight_of(r@[i]);
            let b = weight_of(r@[j]);
            a > b || (a == b && (r@[i].app_id->0 <= r@[j].app_id->0 || a == 0))
        },
        exists|k: int|
            0 <= k < eligible@.len() && (#[trigger] eligible@[k]).app_id == r@[i].app_id
                && eligible@[k].score == r@[i].score,
{
    let by = PoolOrder;
    let s = stable_sorted(eligible@, &by);
    let sorted = item_ids(s);
    let wanted = hit_ids(hits@) + sorted;
    let whole = picks(wanted, sorted);
    crate::sort::lemma_sorted_in_order(eligible@, &by);
    crate::sort::lemma_sorted_rearranges(eligible@, &by);
    crate::sort::lemma_picks_members(wanted, sorted);
    s.to_multiset_ensures();
    eligible@.to_multiset_ensures();
    assert(s.len() == eligible@.len());
    let ids = item_ids(r@);
    assert(ids[i] == crate::server::recall::id_or_max(r@[i]));
    assert(ids[j] == crate::server::recall::id_or_max(r@[j]));
    assert(whole[i] == ids[i] && whole[j] == ids[j]);
    // every eligible game is in the sorted list, once
    assert forall|x: RecalledItem| s.contains(x) <==> #[trigger] eligible@.contains(x) by {
        assert(s.contains(x) <==> s.to_multiset().count(x) > 0);
        assert(eligible@.contains(x) <==> eligible@.to_multiset().count(x) > 0);
    }
    lemma_sorted_once(eligible@, s);
    assert forall|id: u32| whole.contains(id) <==> #[trigger] sorted.contains(id) by {
        if sorted.contains(id) {
            let k = choose|k: int| 0 <= k < sorted.len() && sorted[k] == id;
            assert(wanted[hits@.len() + k] == id);
            assert(wanted.contains(id));
        }
    }
    lemma_same_members_same_length(whole, sorted);
    assert(sorted.len() == s.len());
    assert(ids.len() == r@.len());
    assert(hit_ids(hits@).len() == hits@.len());
    if is_hit(hits@, ids[j]) {
        let k = choose|k: int| 0 <= k < hits@.len() && (#[trigger] hits@[k]).app_id == ids[j];
        assert(wanted[k] == ids[j]);
        lemma_picks_order(wanted, sorted, i, j, k);
        let a = choose|a: int| 0 <= a < k && #[trigger] wanted[a] == ids[i];
        assert(hits@[a].app_id == ids[i]);
    }
    assert(whole.contains(whole[i]) && whole.contains(whole[j]));
    assert(sorted.contains(whole[i]) && sorted.contains(whole[j]));
    let q = choose|q: int| 0 <= q < sorted.len() && sorted[q] == whole[j];
    if !is_hit(hits@, ids[i]) {
        assert(wanted[hits@.len() + q] == ids[j]);
        lemma_picks_order(wanted, sorted, i, j, hits@.len() + q);
        let a = choose|a: int| 0 <= a < hits@.len() + q && #[trigger] wanted[a] == ids[i];
        if a < hits@.len() {
            assert(hits@[a].app_id == ids[i]);
        }
        let p = a - hits@.len();
        assert(sorted[p] == ids[i]);
        lemma_pool_item(r@, eligible@, hits@, s, i, p);
        lemma_pool_item(r@, eligible@, hits@, s, j, q);
    }
    let c = choose|c: int|
        0 <= c < eligible@.len() && crate::server::recall::with_hit(
            r@[i],
            #[trigger] eligible@[c],
            hits@,
        );
    assert(crate::server::recall::comes_from(r@[i], eligible@, hits@));
    assert(eligible@[c].app_id == r@[i].app_id);
}

proof fn lemma_sorted_once(eligible: Seq<RecalledItem>, s: Seq<RecalledItem>)
    requires
        one_per_game(eligible),
        s.to_multiset() == eligible.to_multiset(),
        forall|x: RecalledItem| s.contains(x) <==> #[trigger] eligible.contains(x),
    ensures
        item_ids(s).no_duplicates(),
        forall|k: int| 0 <= k < s.len() ==> (#[trigger] s[k]).app_id is Some,
{
    assert forall|k: int| 0 <= k < s.len() implies (#[trigger] s[k]).app_id is Some by {
        assert(s.contains(s[k]));
        assert(eligible.contains(s[k]));
    }
    assert forall|a: int, b: int|
        0 <= a < item_ids(s).len() && 0 <= b < item_ids(s).len() && a != b implies item_ids(s)[a]
        != item_ids(s)[b] by {
        assert(s.contains(s[a]) && s.contains(s[b]));
        assert(eligible.contains(s[a]) && eligible.contains(s[b]));
        let x = choose|x: int| 0 <= x < eligible.len() && eligible[x] == s[a];
        let y = choose|y: int| 0 <= y < eligible.len() && eligible[y] == s[b];
        if x == y {
            lemma_twice(s, a, b);
            lemma_once(eligible, x);
        } else {
            assert(item_ids(eligible)[x] != item_ids(eligible)[y]);
        }
    }
}

proof fn lemma_twice(s: Seq<RecalledItem>, a: int, b: int)
    requires
        0 <= a < s.len(),
        0 <= b < s.len(),
        a != b,
        s[a] == s[b],
    ensures
        s.to_multiset().count(s[a]) >= 2,
{
    let low = if a < b {
        a
    } else {
        b
    };
    let high = if a < b {
        b
    } else {
        a
    };
    let x = s.take(high);
    let y = s.skip(high);
    assert(s =~= x + y);
    vstd::seq_lib::lemma_multiset_commutative(x, y);
    x.to_multiset_ensures();
    y.to_multiset_ensures();
    assert(x[low] == s[a]);
    assert(y[0] == s[a]);
    assert(x.contains(s[a]) && y.contains(s[a]));
    assert(x.to_multiset().count(s[a]) > 0 && y.to_multiset().count(s[a]) > 0);
}

proof fn lemma_once(s: Seq<RecalledItem>, x: int)
    requires
        one_per_game(s),
        0 <= x < s.len(),
    ensures
        s.to_multiset().count(s[x]) <= 1,
{
    let a = s.take(x);
    let b = s.skip(x + 1);
    assert(s =~= a + (seq![s[x]] + b));
    vstd::seq_lib::lemma_multiset_commutative(a, seq![s[x]] + b);
    vstd::seq_lib::lemma_multiset_commutative(seq![s[x]], b);
    a.to_multiset_ensures();
    b.to_multiset_ensures();
    seq![s[x]].to_multiset_ensures();
    assert(seq![s[x]] =~= Seq::<RecalledItem>::empty().push(s[x]));
    Seq::<RecalledItem>::empty().to_multiset_ensures();
    if a.contains(s[x]) {
        let k = choose|k: int| 0 <= k < a.len() && a[k] == s[x];
        assert(item_ids(s)[k] != item_ids(s)[x]);
        assert(s[k] == s[x]);
    }
    if b.contains(s[x]) {
        let k = choose|k: int| 0 <= k < b.len() && b[k] == s[x];
        assert(item_ids(s)[x + 1 + k] != item_ids(s)[x]);
        assert(s[x + 1 + k] == s[x]);
    }
    assert(!a.contains(s[x]) && !b.contains(s[x]));
    assert(a.to_multiset().count(s[x]) == 0 && b.to_multiset().count(s[x]) == 0);
}

proof fn lemma_pool_item(
    items: Seq<RecalledItem>,
    eligible: Seq<RecalledItem>,
    hits: Seq<HybridHit>,
    s: Seq<RecalledItem>,
    i: int,
    p: int,
)
    requires
        one_per_game(eligible),
        one_per_game(items),
        crate::server::recall::all_come_from(items, eligible, hits),
        forall|x: RecalledItem| s.contains(x) <==> #[trigger] eligible.contains(x),
        0 <= i < items.len(),
        0 <= p < s.len(),
        item_ids(s)[p] == item_ids(items)[i],
    ensures
        weight_of(items[i]) == weight_of(s[p]),
        s[p].app_id == items[i].app_id,
{
    assert(crate::server::recall::comes_from(items[i], eligible, hits));
    let c = choose|c: int|
        0 <= c < eligible.len() && crate::server::recall::with_hit(
            items[i],
            #[trigger] eligible[c],
            hits,
        );
    assert(s.contains(s[p]));
    assert(eligible.contains(s[p]));
    let d = choose|d: int| 0 <= d < eligible.len() && eligible[d] == s[p];
    assert(item_ids(eligible)[c] == crate::server::recall::id_or_max(eligible[c]));
    assert(item_ids(eligible)[d] == crate::server::recall::id_or_max(eligible[d]));
    assert(c == d);
}

/// An internal recall selects rows of the ranking only: first those that retrieval found, in its
/// order, and no more than the limit; no game twice.
pub proof fn law_recall_takes_retrieved_first(
    ranked: Vec<FeedRow>,
    retrieval_ids: Vec<u32>,
    limit: usize,
    r: Vec<FeedRow>,
    i: int,
    j: int,
)
    requires
        call_ensures(select_internal_recall_candidates, (ranked, &retrieval_ids, limit), r),
        0 <= i < j < r@.len(),
    ensures
        r@.len() <= limit,
        ranked@.contains(r@[i]),
        r@[i].candidate.app_id != r@[j].candidate.app_id,
        retrieval_ids@.contains(r@[j].candidate.app_id) ==> retrieval_ids@.contains(
            r@[i].candidate.app_id,
        ),
{
    let sorted = row_ids(
        stable_sorted(ranked@, &crate::server::ranking::RelevanceOrder),
    );
    let wanted = retrieval_ids@ + sorted;
    let whole = picks(wanted, sorted);
    crate::sort::lemma_picks_members(wanted, sorted);
    assert(row_ids(r@)[i] == r@[i].candidate.app_id);
    assert(row_ids(r@)[j] == r@[j].candidate.app_id);
    assert(row_ids(r@).len() == r@.len());
    assert(whole[i] == r@[i].candidate.app_id && whole[j] == r@[j].candidate.app_id);
    if retrieval_ids@.contains(whole[j]) {
        let b = choose|b: int| 0 <= b < retrieval_ids@.len() && retrieval_ids@[b] == whole[j];
        assert(wanted[b] == whole[j]);
        lemma_picks_order(wanted, sorted, i, j, b);
        let a = choose|a: int| 0 <= a < b && #[trigger] wanted[a] == whole[i];
        assert(retrieval_ids@[a] == whole[i]);
    }
}

/// Behind what retrieval found the rows of an internal recall stand by falling relevance.
pub proof fn law_recall_goes_on_by_relevance(
    ranked: Vec<FeedRow>,
    retrieval_ids: Vec<u32>,
    limit: usize,
    r: Vec<FeedRow>,
    i: int,
    j: int,
)
    requires
        forall|a: int, b: int|
            0 <= a < b < ranked@.len() ==> (#[trigger] ranked@[a]).candidate.app_id != (
            #[trigger] ranked@[b]).candidate.app_id,
        call_ensures(select_internal_recall_candidates, (ranked, &retrieval_ids, limit), r),
        0 <= i < j < r@.len(),
        !retrieval_ids@.contains(r@[i].candidate.app_id),
    ensures
        r@[i].candidate.score.relevance_score.key >= r@[j].candidate.score.relevance_score.key,
{
    let by = crate::server::ranking::RelevanceOrder;
    let s = stable_sorted(ranked@, &by);
    let sorted = row_ids(s);
    let wanted = retrieval_ids@ + sorted;
    let whole = picks(wanted, sorted);
    crate::sort::lemma_picks_members(wanted, sorted);
    crate::sort::lemma_sorted_in_order(ranked@, &by);
    crate::sort::lemma_sorted_rearranges(ranked@, &by);
    s.to_multiset_ensures();
    ranked@.to_multiset_ensures();
    assert(row_ids(r@)[i] == r@[i].candidate.app_id);
    assert(row_ids(r@)[j] == r@[j].candidate.app_id);
    assert(row_ids(r@).len() == r@.len());
    assert(whole[i] == r@[i].candidate.app_id && whole[j] == r@[j].candidate.app_id);
    lemma_row_at(ranked@, s, r@[i]);
    lemma_row_at(ranked@, s, r@[j]);
    let q = choose|q: int| 0 <= q < s.len() && s[q] == r@[j];
    assert(sorted[q] == whole[j]);
    assert(wanted[retrieval_ids@.len() + q] == whole[j]);
    lemma_picks_order(wanted, sorted, i, j, retrieval_ids@.len() + q);
    let a = choose|a: int| 0 <= a < retrieval_ids@.len() + q && #[trigger] wanted[a] == whole[i];
    if a < retrieval_ids@.len() {
        assert(retrieval_ids@[a] == whole[i]);
    }
    let p = a - retrieval_ids@.len();
    assert(sorted[p] == s[p].candidate.app_id);
    let p2 = choose|p2: int| 0 <= p2 < s.len() && s[p2] == r@[i];
    lemma_same_game(ranked@, s, p, p2);
}

proof fn lemma_row_at(ranked: Seq<FeedRow>, s: Seq<FeedRow>, row: FeedRow)
    requires
        s.to_multiset() == ranked.to_multiset(),
        ranked.contains(row),
    ensures
        s.contains(row),
{
    s.to_multiset_ensures();
    ranked.to_multiset_ensures();
    assert(ranked.to_multiset().count(row) > 0);
}

proof fn lemma_same_game(ranked: Seq<FeedRow>, s: Seq<FeedRow>, p: int, q: int)
    requires
        s.to_multiset() == ranked.to_multiset(),
        forall|a: int, b: int|
            0 <= a < b < ranked.len() ==> (#[trigger] ranked[a]).candidate.app_id != (
            #[trigger] ranked[b]).candidate.app_id,
        0 <= p < s.len(),
        0 <= q < s.len(),
        s[p].candidate.app_id == s[q].candidate.app_id,
    ensures
        s[p] == s[q],
{
    s.to_multiset_ensures();
    ranked.to_multiset_ensures();
    assert(s.contains(s[p]) && s.contains(s[q]));
    assert(ranked.to_multiset().count(s[p]) > 0 && ranked.to_multiset().count(s[q]) > 0);
    assert(ranked.contains(s[p]) && ranked.contains(s[q]));
    let a = choose|a: int| 0 <= a < ranked.len() && ranked[a] == s[p];
    let b = choose|b: int| 0 <= b < ranked.len() && ranked[b] == s[q];
    if a < b {
        assert(ranked[a].candidate.app_id != ranked[b].candidate.app_id);
    } else if b < a {
        assert(ranked[b].candidate.app_id != ranked[a].candidate.app_id);
    }
}

} // verus!
