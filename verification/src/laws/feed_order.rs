//! The order of a feed, the indices beside it, and its pages.

use std::collections::HashMap;

use vstd::prelude::*;

use crate::score::Score;
use crate::server::feed_query::{FeedSort, FeedSortOrder};
use crate::server::ranking::{
    apply_feed_sort, context_percentile_indices, context_percentile_indices_for_window,
    count_above, count_tied, finite_pool, fit_band, recommendation_index_is_eligible,
    resolve_feed_cover_url, slot_reason_str, sortable, steam_header_cover_url,
    visible_recommendation_index, FeedPresentation, FeedRow, SlotReason,
};
use crate::sort::text_order;

verus! {

// ---------------------------------------------------------------------------
// Sorting
// ---------------------------------------------------------------------------

/// Sorting loses no row and adds none.
pub proof fn law_sorting_rearranges(
    items: Vec<FeedRow>,
    sort: FeedSort,
    order: FeedSortOrder,
    r: Vec<FeedRow>,
)
    requires
        sortable(items@),
        call_ensures(apply_feed_sort, (items, sort, order), r),
    ensures
        r@.to_multiset() == items@.to_multiset(),
{
}

/// The players that a row shows: those of a typical week, or else the latest ones.
pub open spec fn players_shown(row: FeedRow) -> Option<u32> {
    match row.presentation {
        Some(p) => match p.typical_ccu_7d {
            Some(typical) => Some(typical),
            None => p.latest_ccu,
        },
        None => None,
    }
}

/// By players, a descending feed never shows a less played game before a more played one, and an
/// ascending one never a more played game before a less played one; games whose players are not
/// known come after all others.
pub proof fn law_feed_by_players(
    items: Vec<FeedRow>,
    order: FeedSortOrder,
    r: Vec<FeedRow>,
    i: int,
    j: int,
)
    requires
        sortable(items@),
        call_ensures(apply_feed_sort, (items, FeedSort::Ccu, order), r),
        0 <= i < j < r@.len(),
    ensures
        players_shown(r@[i]) is None ==> players_shown(r@[j]) is None,
        players_shown(r@[i]) is Some && players_shown(r@[j]) is Some && order is Desc
            ==> players_shown(r@[i])->0 >= players_shown(r@[j])->0,
        players_shown(r@[i]) is Some && players_shown(r@[j]) is Some && order is Asc
            ==> players_shown(r@[i])->0 <= players_shown(r@[j])->0,
{
}

/// The same for reviews.
pub proof fn law_feed_by_reviews(
    items: Vec<FeedRow>,
    order: FeedSortOrder,
    r: Vec<FeedRow>,
    i: int,
    j: int,
)
    requires
        sortable(items@),
        call_ensures(apply_feed_sort, (items, FeedSort::Reviews, order), r),
        0 <= i < j < r@.len(),
    ensures
        ({
            let reviews = |row: FeedRow|
                if row.presentation is Some {
                    row.presentation->0.total_reviews
                } else {
                    None
                };
            &&& reviews(r@[i]) is None ==> reviews(r@[j]) is None
            &&& reviews(r@[i]) is Some && reviews(r@[j]) is Some && order is Desc ==> reviews(
                r@[i],
            )->0 >= reviews(r@[j])->0
            &&& reviews(r@[i]) is Some && reviews(r@[j]) is Some && order is Asc ==> reviews(
                r@[i],
            )->0 <= reviews(r@[j])->0
        }),
{
}

/// `a` stands before `b` in a dictionary: up to some place they are alike, and there `a` ends or
/// has the lower character.
pub open spec fn earlier(a: Seq<char>, b: Seq<char>) -> bool {
    exists|k: int| #[trigger] earlier_at(a, b, k)
}

pub open spec fn earlier_at(a: Seq<char>, b: Seq<char>, k: int) -> bool {
    &&& 0 <= k <= a.len()
    &&& k < b.len()
    &&& a.take(k) == b.take(k)
    &&& k == a.len() || (a[k] as int) < (b[k] as int)
}

pub(crate) proof fn lemma_order_is_dictionary(a: Seq<char>, b: Seq<char>)
    ensures
        text_order(a, b) < 0 <==> earlier(a, b),
        text_order(a, b) == 0 <==> a == b,
    decreases a.len(),
{
    if a.len() == 0 {
        if b.len() > 0 {
            assert(a.take(0) =~= b.take(0));
            assert(earlier_at(a, b, 0));
        } else {
            assert(a =~= b);
        }
    } else if b.len() == 0 {
    } else if a[0] != b[0] {
        if (a[0] as int) < (b[0] as int) {
            assert(a.take(0) =~= b.take(0));
            assert(earlier_at(a, b, 0));
        } else if earlier(a, b) {
            let k = choose|k: int| #[trigger] earlier_at(a, b, k);
            if k > 0 {
                assert(a.take(k)[0] == b.take(k)[0]);
            }
        }
    } else {
        let (x, y) = (a.drop_first(), b.drop_first());
        lemma_order_is_dictionary(x, y);
        if earlier(x, y) {
            let k = choose|k: int| #[trigger] earlier_at(x, y, k);
            assert(a.take(k + 1) =~= seq![a[0]] + x.take(k));
            assert(b.take(k + 1) =~= seq![b[0]] + y.take(k));
            assert(earlier_at(a, b, k + 1));
        }
        if earlier(a, b) {
            let k = choose|k: int| #[trigger] earlier_at(a, b, k);
            if k == 0 {
            } else {
                assert(x.take(k - 1) =~= a.take(k).drop_first());
                assert(y.take(k - 1) =~= b.take(k).drop_first());
                assert(earlier_at(x, y, k - 1));
            }
        }
        if x == y {
            assert(a =~= seq![a[0]] + x);
            assert(b =~= seq![b[0]] + y);
        }
    }
}

/// By release date, an ascending feed never shows a later date before an earlier one, and a
/// descending feed never an earlier one before a later one; games without a date come last.
pub proof fn law_feed_by_release_date(
    items: Vec<FeedRow>,
    order: FeedSortOrder,
    r: Vec<FeedRow>,
    i: int,
    j: int,
)
    requires
        sortable(items@),
        call_ensures(apply_feed_sort, (items, FeedSort::ReleaseDate, order), r),
        0 <= i < j < r@.len(),
    ensures
        ({
            let date = |row: FeedRow|
                if row.presentation is Some && row.presentation->0.release_date is Some
                    && row.presentation->0.release_date->0@.len() > 0 {
                    Some(row.presentation->0.release_date->0@)
                } else {
                    None
                };
            &&& date(r@[i]) is None ==> date(r@[j]) is None
            &&& date(r@[i]) is Some && date(r@[j]) is Some && order is Asc ==> !earlier(
                date(r@[j])->0,
                date(r@[i])->0,
            )
            &&& date(r@[i]) is Some && date(r@[j]) is Some && order is Desc ==> !earlier(
                date(r@[i])->0,
                date(r@[j])->0,
            )
        }),
{
    if r@[i].date() is Some && r@[j].date() is Some {
        let (a, b) = (r@[i].date()->0, r@[j].date()->0);
        lemma_order_is_dictionary(a, b);
        lemma_order_is_dictionary(b, a);
        crate::sort::lemma_text_order_antisymmetric(a, b);
    }
}

/// Enough is known of the game: a confidence of at least 0.45, and three features.
pub open spec fn well_known(row: FeedRow) -> bool {
    &&& row.presentation is Some
    &&& 0x3fdc_cccc_cccc_cccd <= row.presentation->0.data_confidence.key <= 0x7ff0_0000_0000_0000
    &&& row.presentation->0.effective_feature_count >= 3
}

/// By fit, games of which enough is known come before the others, whatever the direction; among
/// themselves the more relevant come first in a descending feed, and last in an ascending one.
pub proof fn law_feed_by_fit(
    items: Vec<FeedRow>,
    order: FeedSortOrder,
    r: Vec<FeedRow>,
    i: int,
    j: int,
)
    requires
        sortable(items@),
        call_ensures(apply_feed_sort, (items, FeedSort::FitIndex, order), r),
        0 <= i < j < r@.len(),
    ensures
        well_known(r@[j]) ==> well_known(r@[i]),
        well_known(r@[i]) == well_known(r@[j]) && order is Desc
            ==> r@[i].candidate.score.relevance_score.key
            >= r@[j].candidate.score.relevance_score.key,
        well_known(r@[i]) == well_known(r@[j]) && order is Asc
            ==> r@[i].candidate.score.relevance_score.key
            <= r@[j].candidate.score.relevance_score.key,
{
}

/// The recommended feed has the well-known games first, each group by falling relevance,
/// whatever direction is asked for.
pub proof fn law_recommended_feed(
    items: Vec<FeedRow>,
    order: FeedSortOrder,
    r: Vec<FeedRow>,
    i: int,
    j: int,
)
    requires
        sortable(items@),
        call_ensures(apply_feed_sort, (items, FeedSort::Recommended, order), r),
        0 <= i < j < r@.len(),
    ensures
        well_known(r@[j]) ==> well_known(r@[i]),
        well_known(r@[i]) == well_known(r@[j]) ==> r@[i].candidate.score.relevance_score.key
            >= r@[j].candidate.score.relevance_score.key,
{
}

/// Games that the feed cannot tell apart by what it is sorted by are shown by falling final
/// score, and at the same score by rising identifier.
pub proof fn law_ties_go_by_score_and_identifier(
    items: Vec<FeedRow>,
    sort: FeedSort,
    order: FeedSortOrder,
    r: Vec<FeedRow>,
    i: int,
    j: int,
)
    requires
        sortable(items@),
        call_ensures(apply_feed_sort, (items, sort, order), r),
        0 <= i < j < r@.len(),
        r@[i].presentation == r@[j].presentation,
        r@[i].candidate.score.relevance_score == r@[j].candidate.score.relevance_score,
        r@[i].candidate.score.final_score.key >= 0,
        r@[j].candidate.score.final_score.key >= 0,
    ensures
        r@[i].candidate.score.final_score.key >= r@[j].candidate.score.final_score.key,
        r@[i].candidate.score.final_score.key == r@[j].candidate.score.final_score.key
            ==> r@[i].candidate.app_id <= r@[j].candidate.app_id,
{
    if r@[i].date() is Some {
        lemma_order_is_dictionary(r@[i].date()->0, r@[i].date()->0);
    }
}

// ---------------------------------------------------------------------------
// Indices
// ---------------------------------------------------------------------------

/// An entry whose score is a finite number.
pub open spec fn is_finite_entry(entry: (u32, Score)) -> bool {
    -0x7ff0_0000_0000_0000 <= entry.1.key < 0x7ff0_0000_0000_0000
}

/// Among the finite scores, those above one, and those equal to it.
pub open spec fn above_in(scores: Seq<(u32, Score)>, key: i64) -> nat {
    scores.filter(|e: (u32, Score)| is_finite_entry(e) && e.1.key > key).len()
}

pub open spec fn tied_in(scores: Seq<(u32, Score)>, key: i64) -> nat {
    scores.filter(|e: (u32, Score)| is_finite_entry(e) && e.1.key == key).len()
}

pub open spec fn finite_in(scores: Seq<(u32, Score)>) -> nat {
    scores.filter(|e: (u32, Score)| is_finite_entry(e)).len()
}

proof fn lemma_counts_of_pool(scores: Seq<(u32, Score)>, key: i64)
    ensures
        finite_pool(scores).len() == finite_in(scores),
        count_above(finite_pool(scores), key) == above_in(scores, key),
        count_tied(finite_pool(scores), key) == tied_in(scores, key),
    decreases scores.len(),
{
    reveal(Seq::filter);
    if scores.len() > 0 {
        let front = scores.drop_last();
        lemma_counts_of_pool(front, key);
        let pool = finite_pool(scores);
        if is_finite_entry(scores.last()) {
            assert(pool.drop_last() =~= finite_pool(front));
            assert(pool.last() == scores.last());
        }
    }
}

proof fn lemma_pool_holds(scores: Seq<(u32, Score)>, i: int)
    requires
        0 <= i < scores.len(),
        is_finite_entry(scores[i]),
    ensures
        finite_pool(scores).contains(scores[i]),
        forall|k: int|
            0 <= k < finite_pool(scores).len() ==> scores.contains(
                #[trigger] finite_pool(scores)[k],
            ),
    decreases scores.len(),
{
    lemma_pool_members(scores);
    lemma_pool_keeps(scores, i);
}

proof fn lemma_pool_members(scores: Seq<(u32, Score)>)
    ensures
        forall|k: int|
            0 <= k < finite_pool(scores).len() ==> scores.contains(
                #[trigger] finite_pool(scores)[k],
            ),
    decreases scores.len(),
{
    if scores.len() > 0 {
        let front = scores.drop_last();
        lemma_pool_members(front);
        assert forall|k: int| 0 <= k < finite_pool(scores).len() implies scores.contains(
            #[trigger] finite_pool(scores)[k],
        ) by {
            if k < finite_pool(front).len() {
                assert(finite_pool(scores)[k] == finite_pool(front)[k]);
                let m = choose|m: int| 0 <= m < front.len() && front[m] == finite_pool(front)[k];
                assert(scores[m] == finite_pool(scores)[k]);
            } else {
                assert(scores[scores.len() - 1] == finite_pool(scores)[k]);
            }
        }
    }
}

proof fn lemma_pool_keeps(scores: Seq<(u32, Score)>, i: int)
    requires
        0 <= i < scores.len(),
        is_finite_entry(scores[i]),
    ensures
        finite_pool(scores).contains(scores[i]),
    decreases scores.len(),
{
    let front = scores.drop_last();
    let pool = finite_pool(scores);
    if i == scores.len() - 1 {
        assert(pool[pool.len() - 1] == scores[i]);
    } else {
        lemma_pool_keeps(front, i);
        let k = choose|k: int| 0 <= k < finite_pool(front).len() && finite_pool(front)[k]
            == scores[i];
        assert(pool[k] == scores[i]);
    }
}

/// The game is in the list once.
pub open spec fn listed_once(scores: Seq<(u32, Score)>, i: int) -> bool {
    &&& 0 <= i < scores.len()
    &&& forall|j: int| 0 <= j < scores.len() && j != i ==> (#[trigger] scores[j]).0 != scores[i].0
}

/// The index of a game is the share of the finite scores below its own, in hundredths and
/// rounded half up, with those equal to its own counted by half; with fewer than ten finite
/// scores there is none.
pub proof fn law_index_is_a_midrank(scores: Vec<(u32, Score)>, r: HashMap<u32, u8>, i: int)
    requires
        call_ensures(context_percentile_indices, (&scores,), r),
        listed_once(scores@, i),
        is_finite_entry(scores@[i]),
    ensures
        finite_in(scores@) < 10 ==> !r@.dom().contains(scores@[i].0),
        finite_in(scores@) >= 10 ==> {
            let total = finite_in(scores@) as int;
            let above = above_in(scores@, scores@[i].1.key) as int;
            let tied = tied_in(scores@, scores@[i].1.key) as int;
            let index = r@[scores@[i].0] as int;
            &&& r@.dom().contains(scores@[i].0)
            &&& 2 * total * index - total <= 100 * (2 * (total - above) - tied)
            &&& 100 * (2 * (total - above) - tied) < 2 * total * index + total
        },
{
    let key = scores@[i].1.key;
    let pool = finite_pool(scores@);
    lemma_counts_of_pool(scores@, key);
    lemma_pool_holds(scores@, i);
    let k = choose|k: int| 0 <= k < pool.len() && pool[k] == scores@[i];
    assert forall|j: int| 0 <= j < pool.len() && (#[trigger] pool[j]).0 == pool[k].0 implies pool[
        k].1.key <= pool[j].1.key by {
        let m = choose|m: int| 0 <= m < scores@.len() && scores@[m] == pool[j];
        assert(m == i);
    }
    if pool.len() >= 10 {
        assert(crate::server::ranking::lowest_of_game(pool, k));
        let total = pool.len() as int;
        let x = 100 * (2 * total - 2 * count_above(pool, key) - count_tied(pool, key)) + total;
        let d = 2 * total;
        vstd::arithmetic::div_mod::lemma_fundamental_div_mod(x, d);
        vstd::arithmetic::div_mod::lemma_mod_pos_bound(x, d);
        assert(d * (x / d) == 2 * total * (x / d)) by (nonlinear_arith)
            requires
                d == 2 * total,
        ;
    }
}

/// A score that is not a finite number has no index, and counts for nobody else's.
pub proof fn law_only_listed_games_have_an_index(
    scores: Vec<(u32, Score)>,
    r: HashMap<u32, u8>,
    id: u32,
)
    requires
        call_ensures(context_percentile_indices, (&scores,), r),
        r@.dom().contains(id),
    ensures
        exists|i: int|
            0 <= i < scores@.len() && (#[trigger] scores@[i]).0 == id,
        finite_in(scores@) >= 10,
{
    lemma_counts_of_pool(scores@, 0);
    lemma_pool_members(scores@);
    let pool = finite_pool(scores@);
    let k = choose|k: int| 0 <= k < pool.len() && (#[trigger] pool[k]).0 == id;
    let m = choose|m: int| 0 <= m < scores@.len() && scores@[m] == pool[k];
    assert(scores@[m].0 == id);
}

/// Of two games on one list, the one with the higher score never has the lower index, and equal
/// scores have equal indices.
pub proof fn law_higher_scores_have_higher_indices(
    scores: Vec<(u32, Score)>,
    r: HashMap<u32, u8>,
    i: int,
    j: int,
)
    requires
        call_ensures(context_percentile_indices, (&scores,), r),
        listed_once(scores@, i),
        listed_once(scores@, j),
        is_finite_entry(scores@[i]),
        is_finite_entry(scores@[j]),
        scores@[i].1.key >= scores@[j].1.key,
        finite_in(scores@) >= 10,
    ensures
        r@[scores@[i].0] >= r@[scores@[j].0],
        scores@[i].1.key == scores@[j].1.key ==> r@[scores@[i].0] == r@[scores@[j].0],
        r@[scores@[i].0] <= 100,
{
    let pool = finite_pool(scores@);
    lemma_counts_of_pool(scores@, 0);
    lemma_at_lowest(scores@, i);
    lemma_at_lowest(scores@, j);
    crate::server::ranking::lemma_index_monotone(scores@, scores@[j].1.key, scores@[i].1.key);
    let k = choose|k: int| 0 <= k < pool.len() && pool[k] == scores@[i];
    crate::server::ranking::lemma_index_is_percentage(scores@, k);
}

proof fn lemma_at_lowest(scores: Seq<(u32, Score)>, i: int)
    requires
        listed_once(scores, i),
        is_finite_entry(scores[i]),
    ensures
        exists|k: int|
            0 <= k < finite_pool(scores).len() && #[trigger] finite_pool(scores)[k] == scores[i]
                && crate::server::ranking::lowest_of_game(finite_pool(scores), k),
{
    let pool = finite_pool(scores);
    lemma_pool_holds(scores, i);
    let k = choose|k: int| 0 <= k < pool.len() && pool[k] == scores[i];
    assert forall|j: int| 0 <= j < pool.len() && (#[trigger] pool[j]).0 == pool[k].0 implies pool[
        k].1.key <= pool[j].1.key by {
        let m = choose|m: int| 0 <= m < scores.len() && scores[m] == pool[j];
        assert(m == i);
    }
    assert(crate::server::ranking::lowest_of_game(pool, k));
}

/// The indices of a page are those of the scores on the page, and of no others.
pub proof fn law_window_indices_are_of_the_window(
    scores: Vec<(u32, Score)>,
    shown: Vec<(u32, Score)>,
    offset: usize,
    limit: usize,
    r: HashMap<u32, u8>,
    s: HashMap<u32, u8>,
    i: int,
)
    requires
        offset + limit <= scores@.len(),
        shown@ == scores@.subrange(offset as int, offset + limit),
        call_ensures(context_percentile_indices_for_window, (&scores, offset, limit), r),
        call_ensures(context_percentile_indices, (&shown,), s),
        listed_once(shown@, i),
        is_finite_entry(shown@[i]),
    ensures
        r@.dom().contains(shown@[i].0) == s@.dom().contains(shown@[i].0),
        r@.dom().contains(shown@[i].0) ==> r@[shown@[i].0] == s@[shown@[i].0],
{
    assert(crate::server::ranking::window(scores@, offset as nat, limit as nat) =~= shown@);
    lemma_counts_of_pool(shown@, 0);
    lemma_at_lowest(shown@, i);
}

/// An index is shown where there is one and enough is known of the game; then as it is.
pub proof fn law_index_is_shown_of_well_known_games(
    app_id: u32,
    indices: HashMap<u32, u8>,
    row: FeedRow,
    presentation: FeedPresentation,
    r: Option<u8>,
    eligible: bool,
)
    requires
        row.presentation == Some(presentation),
        call_ensures(visible_recommendation_index, (app_id, &indices, Some(&presentation)), r),
        call_ensures(recommendation_index_is_eligible, (&presentation,), eligible),
    ensures
        eligible == well_known(row),
        r is Some <==> well_known(row) && indices@.dom().contains(app_id),
        r matches Some(index) ==> index == indices@[app_id],
{
}

/// Without a presentation no index is shown.
pub proof fn law_no_index_without_presentation(
    app_id: u32,
    indices: HashMap<u32, u8>,
    r: Option<u8>,
)
    requires
        call_ensures(
            visible_recommendation_index,
            (app_id, &indices, None::<&FeedPresentation>),
            r,
        ),
    ensures
        r is None,
{
}

/// The band follows the index: excellent from 80 up, good from 60 up, worth considering below,
/// and no judgment without an index.
pub proof fn law_band_follows_the_index(index: Option<u8>, r: &'static str)
    requires
        call_ensures(fit_band, (index,), r),
    ensures
        r@ == "excellent"@ <==> index is Some && index->0 > 79,
        r@ == "good"@ <==> index is Some && 59 < index->0 < 80,
        r@ == "consider"@ <==> index is Some && index->0 < 60,
        r@ == "insufficient_data"@ <==> index is None,
{
    reveal_strlit("excellent");
    reveal_strlit("good");
    reveal_strlit("consider");
    reveal_strlit("insufficient_data");
    assert("excellent"@.len() == 9 && "good"@.len() == 4 && "consider"@.len() == 8
        && "insufficient_data"@.len() == 17);
}

/// A slot tells why it was filled as it was.
pub proof fn law_slots_tell_their_reason(reason: SlotReason, r: &'static str)
    requires
        call_ensures(slot_reason_str, (reason,), r),
    ensures
        r@ == "base"@ <==> reason is Base,
        r@ == "diversity"@ <==> reason is Diversity,
        r@ == "explore"@ <==> reason is Explore,
{
    reveal_strlit("base");
    reveal_strlit("diversity");
    reveal_strlit("explore");
    assert("base"@.len() == 4 && "diversity"@.len() == 9 && "explore"@.len() == 7);
}

// ---------------------------------------------------------------------------
// Covers
// ---------------------------------------------------------------------------

/// A cover that says anything is shown as it is; otherwise the store's picture of the same game.
pub proof fn law_cover_is_kept_or_the_stores(
    app_id: u32,
    cover_url: Option<String>,
    r: Option<String>,
    fallback: String,
    at: int,
)
    requires
        call_ensures(resolve_feed_cover_url, (app_id, cover_url), r),
        call_ensures(steam_header_cover_url, (app_id,), fallback),
    ensures
        cover_url is None ==> r is Some && r->0@ == fallback@,
        cover_url is Some && 0 <= at < cover_url->0@.len() && (cover_url->0@[at] as u32) > 0x3000
            ==> r is Some && r->0@ == cover_url->0@,
        cover_url is Some && cover_url->0@.len() == 0 ==> r is Some && r->0@ == fallback@,
        r is Some,
{
    if cover_url is Some && 0 <= at < cover_url->0@.len() && (cover_url->0@[at] as u32) > 0x3000 {
        lemma_trim_keeps(cover_url->0@, at);
    }
}

proof fn lemma_trim_keeps(s: Seq<char>, at: int)
    requires
        0 <= at < s.len(),
        !crate::text::is_whitespace(s[at]),
    ensures
        crate::text::trimmed(s).len() > 0,
{
    lemma_trim_start_keeps(s, at);
    let t = crate::text::trim_start(s);
    let k = choose|k: int| 0 <= k < t.len() && !crate::text::is_whitespace(t[k]);
    lemma_trim_end_keeps(t, k);
}

proof fn lemma_trim_start_keeps(s: Seq<char>, at: int)
    requires
        0 <= at < s.len(),
        !crate::text::is_whitespace(s[at]),
    ensures
        exists|k: int|
            0 <= k < crate::text::trim_start(s).len() && !crate::text::is_whitespace(
                #[trigger] crate::text::trim_start(s)[k],
            ),
    decreases s.len(),
{
    if crate::text::is_whitespace(s[0]) {
        let rest = s.drop_first();
        assert(rest[at - 1] == s[at]);
        lemma_trim_start_keeps(rest, at - 1);
        let k = choose|k: int|
            0 <= k < crate::text::trim_start(rest).len() && !crate::text::is_whitespace(
                #[trigger] crate::text::trim_start(rest)[k],
            );
        assert(crate::text::trim_start(s) == crate::text::trim_start(rest));
        assert(!crate::text::is_whitespace(crate::text::trim_start(s)[k]));
    } else {
        assert(crate::text::trim_start(s)[at] == s[at]);
    }
}

proof fn lemma_trim_end_keeps(s: Seq<char>, at: int)
    requires
        0 <= at < s.len(),
        !crate::text::is_whitespace(s[at]),
    ensures
        crate::text::trim_end(s).len() > 0,
    decreases s.len(),
{
    if crate::text::is_whitespace(s.last()) {
        lemma_trim_end_keeps(s.drop_last(), at);
    }
}

} // verus!
