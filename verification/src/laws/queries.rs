//! How a request for a feed is read.

use vstd::prelude::*;

use crate::server::errors::ApiError;
use crate::server::feed_query::{
    apply_feed_overrides, csv_values, decode_cursor, encode_cursor, feed_offset,
    hard_constraints_from_feed_query, if_none_match_ok, parse_csv_filter, plan_feed_request,
    CursorError, FeedPlan, FeedPreferences, FeedQuery, FeedSort, FeedSortOrder, HardConstraints,
};
use crate::server::feed_request::{locate_feed, FeedPlace, FeedRequest};
use crate::text::{byte_len, split_on, to_ascii_lower, to_ascii_upper, trimmed, views};

verus! {

// ---------------------------------------------------------------------------
// Names of sorts and orders
// ---------------------------------------------------------------------------

/// Nothing is asked for.
pub open spec fn is_blank(raw: Option<&str>) -> bool {
    raw is None || trimmed(raw->0@).len() == 0
}

/// The name asked for, without the white space around it.
pub open spec fn is_named(raw: Option<&str>, name: Seq<char>) -> bool {
    raw is Some && trimmed(raw->0@) == name
}

proof fn lemma_sort_names()
    ensures
        "recommended"@.len() == 11,
        "score"@.len() == 5,
        "fit_index"@.len() == 9,
        "relevance"@.len() == 9,
        "fit"@.len() == 3,
        "ccu"@.len() == 3,
        "players"@.len() == 7,
        "player_count"@.len() == 12,
        "reviews"@.len() == 7,
        "review_count"@.len() == 12,
        "release_date"@.len() == 12,
        "release"@.len() == 7,
        "date"@.len() == 4,
        "fit"@[0] == 'f',
        "ccu"@[0] == 'c',
        "fit_index"@[0] == 'f',
        "relevance"@[0] == 'r',
        "players"@[0] == 'p',
        "reviews"@[2] == 'v',
        "release"@[2] == 'l',
        "player_count"@[0] == 'p',
        "reviews"@[0] == 'r',
        "release"@[0] == 'r',
        "review_count"@[0] == 'r',
        "release_date"@[0] == 'r',
        "review_count"@[2] == 'v',
        "release_date"@[2] == 'l',
{
    reveal_strlit("recommended");
    reveal_strlit("score");
    reveal_strlit("fit_index");
    reveal_strlit("relevance");
    reveal_strlit("fit");
    reveal_strlit("ccu");
    reveal_strlit("players");
    reveal_strlit("player_count");
    reveal_strlit("reviews");
    reveal_strlit("review_count");
    reveal_strlit("release_date");
    reveal_strlit("release");
    reveal_strlit("date");
}

/// Each sort goes by its names, nothing at all means the recommended one, and any other name is
/// refused.
pub proof fn law_sorts_go_by_their_names(raw: Option<&str>, r: Result<FeedSort, ()>)
    requires
        call_ensures(FeedSort::parse, (raw,), r),
    ensures
        r == Ok::<FeedSort, ()>(FeedSort::Recommended) <==> is_blank(raw) || is_named(
            raw,
            "recommended"@,
        ) || is_named(raw, "score"@),
        r == Ok::<FeedSort, ()>(FeedSort::FitIndex) <==> is_named(raw, "fit_index"@) || is_named(
            raw,
            "relevance"@,
        ) || is_named(raw, "fit"@),
        r == Ok::<FeedSort, ()>(FeedSort::Ccu) <==> is_named(raw, "ccu"@) || is_named(
            raw,
            "players"@,
        ) || is_named(raw, "player_count"@),
        r == Ok::<FeedSort, ()>(FeedSort::Reviews) <==> is_named(raw, "reviews"@) || is_named(
            raw,
            "review_count"@,
        ),
        r == Ok::<FeedSort, ()>(FeedSort::ReleaseDate) <==> is_named(raw, "release_date"@)
            || is_named(raw, "release"@) || is_named(raw, "date"@),
{
    lemma_sort_names();
}

/// A sort's own name is read as that sort.
pub proof fn law_sort_names_read_back(sort: FeedSort, name: &'static str, r: Result<FeedSort, ()>)
    requires
        call_ensures(FeedSort::as_str, (sort,), name),
        call_ensures(FeedSort::parse, (Some(name),), r),
    ensures
        r == Ok::<FeedSort, ()>(sort),
{
    lemma_sort_names();
    reveal_strlit("recommended");
    reveal_strlit("fit_index");
    reveal_strlit("ccu");
    reveal_strlit("reviews");
    reveal_strlit("release_date");
    assert(!crate::text::is_whitespace(name@[0]) && !crate::text::is_whitespace(name@.last()));
    assert(crate::text::trim_start(name@) == name@);
    assert(crate::text::trim_end(name@) == name@);
}

/// The recommended feed always falls; the others rise or fall as asked, and where nothing is
/// asked the release date rises and everything else falls.
pub proof fn law_orders_go_by_their_names(
    raw: Option<&str>,
    sort: FeedSort,
    r: Result<FeedSortOrder, ()>,
)
    requires
        call_ensures(FeedSortOrder::parse, (raw, sort), r),
    ensures
        sort is Recommended ==> r == Ok::<FeedSortOrder, ()>(FeedSortOrder::Desc),
        !(sort is Recommended) ==> {
            &&& r == Ok::<FeedSortOrder, ()>(FeedSortOrder::Asc) <==> is_named(raw, "asc"@)
                || is_named(raw, "ascending"@) || (is_blank(raw) && sort is ReleaseDate)
            &&& r == Ok::<FeedSortOrder, ()>(FeedSortOrder::Desc) <==> is_named(raw, "desc"@)
                || is_named(raw, "descending"@) || (is_blank(raw) && !(sort is ReleaseDate))
        },
{
    reveal_strlit("asc");
    reveal_strlit("ascending");
    reveal_strlit("desc");
    reveal_strlit("descending");
    assert("asc"@.len() == 3 && "ascending"@.len() == 9 && "desc"@.len() == 4 && "descending"@.len()
        == 10);
}

// ---------------------------------------------------------------------------
// Places in a feed
// ---------------------------------------------------------------------------

/// A cursor leads back to the place it was made for, in the feed it was made for.
pub proof fn law_cursor_leads_back(
    section: &str,
    snapshot_ms: i64,
    context: &str,
    revision: u64,
    offset: usize,
    cursor: String,
    given: &str,
    r: Result<usize, CursorError>,
)
    requires
        forall|i: int| 0 <= i < section@.len() ==> (#[trigger] section@[i]) != ':',
        forall|i: int| 0 <= i < context@.len() ==> (#[trigger] context@[i]) != ':',
        call_ensures(encode_cursor, (section, snapshot_ms, context, revision, offset), cursor),
        given@ == cursor@,
        call_ensures(decode_cursor, (Some(given), section, snapshot_ms, context, revision), r),
    ensures
        r == Ok::<usize, CursorError>(offset),
{
    assert(!section@.contains(':'));
    assert(!context@.contains(':'));
    crate::server::feed_query::lemma_cursor_roundtrip(
        section@,
        snapshot_ms as int,
        context@,
        revision as nat,
        offset as nat,
    );
}

/// Without a cursor the feed starts at its beginning.
pub proof fn law_no_cursor_is_the_beginning(
    section: &str,
    snapshot_ms: i64,
    context: &str,
    revision: u64,
    r: Result<usize, CursorError>,
)
    requires
        call_ensures(decode_cursor, (None::<&str>, section, snapshot_ms, context, revision), r),
    ensures
        r == Ok::<usize, CursorError>(0),
{
}

/// A page starts at its number less one, times the rows on a page; the number is at least one.
pub proof fn law_page_starts_at_its_number(
    page: i64,
    cursor: Option<&str>,
    section: &str,
    snapshot_ms: i64,
    context: &str,
    revision: u64,
    limit: usize,
    r: Result<usize, ApiError>,
)
    requires
        call_ensures(
            feed_offset,
            (Some(page), cursor, section, snapshot_ms, context, revision, limit),
            r,
        ),
    ensures
        page < 1 <==> r is Err,
        page < 1 ==> r->Err_0.status == 400,
        page >= 1 && (page - 1) * limit <= usize::MAX ==> r == Ok::<usize, ApiError>(
            ((page - 1) * limit) as usize,
        ),
{
    if page >= 1 && (page - 1) * limit <= usize::MAX && page - 1 > usize::MAX {
        assert((page - 1) * limit <= usize::MAX ==> limit == 0) by (nonlinear_arith)
            requires
                page - 1 > usize::MAX,
                limit >= 0,
        ;
        assert(usize::MAX * (limit as int) == 0) by (nonlinear_arith)
            requires
                limit == 0,
        ;
        assert((page - 1) * limit == 0) by (nonlinear_arith)
            requires
                limit == 0,
        ;
    }
}

/// A fault of the cursor is told apart: one that is no cursor is an invalid argument, one of
/// another state of the feed is a conflict.
pub proof fn law_cursor_faults_are_told_apart(
    cursor: Option<&str>,
    section: &str,
    snapshot_ms: i64,
    context: &str,
    revision: u64,
    limit: usize,
    decoded: Result<usize, CursorError>,
    r: Result<usize, ApiError>,
)
    requires
        call_ensures(decode_cursor, (cursor, section, snapshot_ms, context, revision), decoded),
        call_ensures(
            feed_offset,
            (None::<i64>, cursor, section, snapshot_ms, context, revision, limit),
            r,
        ),
    ensures
        decoded is Ok ==> r == Ok::<usize, ApiError>(decoded->Ok_0),
        decoded == Err::<usize, CursorError>(CursorError::Invalid) ==> r is Err
            && r->Err_0.status == 400,
        decoded == Err::<usize, CursorError>(CursorError::Stale) ==> r is Err && r->Err_0.status
            == 409 && r->Err_0.code@ == "cursor_stale"@,
{
}

// ---------------------------------------------------------------------------
// Filters and overrides
// ---------------------------------------------------------------------------

proof fn lemma_csv(parts: Seq<Seq<char>>)
    ensures
        forall|k: int|
            0 <= k < csv_values(parts).len() ==> exists|i: int|
                0 <= i < parts.len() && #[trigger] csv_values(parts)[k] == to_ascii_lower(
                    trimmed(#[trigger] parts[i]),
                ) && trimmed(parts[i]).len() > 0,
        forall|i: int|
            0 <= i < parts.len() && trimmed(#[trigger] parts[i]).len() > 0 ==> csv_values(
                parts,
            ).contains(to_ascii_lower(trimmed(parts[i]))),
        csv_values(parts).len() <= parts.len(),
    decreases parts.len(),
{
    if parts.len() > 0 {
        let front = parts.drop_last();
        lemma_csv(front);
        let kept = csv_values(front);
        let all = csv_values(parts);
        assert forall|k: int| 0 <= k < all.len() implies exists|i: int|
            0 <= i < parts.len() && #[trigger] all[k] == to_ascii_lower(
                trimmed(#[trigger] parts[i]),
            ) && trimmed(parts[i]).len() > 0 by {
            if k < kept.len() {
                assert(all[k] == kept[k]);
                let i = choose|i: int|
                    0 <= i < front.len() && kept[k] == to_ascii_lower(
                        trimmed(#[trigger] front[i]),
                    ) && trimmed(front[i]).len() > 0;
                assert(parts[i] == front[i]);
            } else {
                assert(parts[parts.len() - 1] == parts.last());
            }
        }
        assert forall|i: int| 0 <= i < parts.len() && trimmed(
            #[trigger] parts[i],
        ).len() > 0 implies all.contains(to_ascii_lower(trimmed(parts[i]))) by {
            if i < front.len() {
                assert(parts[i] == front[i]);
                let v = to_ascii_lower(trimmed(parts[i]));
                let k = choose|k: int| 0 <= k < kept.len() && kept[k] == v;
                assert(all[k] == v);
            } else {
                assert(all[kept.len() as int] == to_ascii_lower(trimmed(parts[i])));
            }
        }
    }
}

/// A filter's values are the parts between its commas, without the white space around them and
/// in lower case; a blank part is none. Between one and thirty-two values of at most sixty-four
/// bytes are accepted.
pub proof fn law_filter_lists_its_parts(
    name: &str,
    value: &str,
    r: Result<Vec<String>, ApiError>,
    i: int,
    k: int,
)
    requires
        call_ensures(parse_csv_filter, (name, value), r),
    ensures
        r is Ok ==> 1 <= r->Ok_0@.len() <= 32,
        r is Ok && 0 <= k < r->Ok_0@.len() ==> byte_len(r->Ok_0@[k]@) <= 64 && exists|p: int|
            0 <= p < split_on(value@, ',').len() && r->Ok_0@[k]@ == to_ascii_lower(
                trimmed(#[trigger] split_on(value@, ',')[p]),
            ),
        r is Ok && 0 <= i < split_on(value@, ',').len() && trimmed(split_on(value@, ',')[i]).len()
            > 0 ==> views(r->Ok_0@).contains(to_ascii_lower(trimmed(split_on(value@, ',')[i]))),
        r is Err ==> r->Err_0.status == 400,
        r is Err ==> {
            let values = csv_values(split_on(value@, ','));
            values.len() == 0 || values.len() > 32 || exists|v: int|
                0 <= v < values.len() && byte_len(#[trigger] values[v]) > 64
        },
{
    let parts = split_on(value@, ',');
    lemma_csv(parts);
    if r is Ok && 0 <= k < r->Ok_0@.len() {
        assert(views(r->Ok_0@)[k] == r->Ok_0@[k]@);
        assert(csv_values(parts)[k] == r->Ok_0@[k]@);
        let p = choose|p: int|
            0 <= p < parts.len() && csv_values(parts)[k] == to_ascii_lower(
                trimmed(#[trigger] parts[p]),
            ) && trimmed(parts[p]).len() > 0;
        assert(parts[p] == split_on(value@, ',')[p]);
    }
    if r is Ok {
        assert(views(r->Ok_0@).len() == r->Ok_0@.len());
    }
}

/// A request overrides what it names and leaves the rest of the stored preferences alone; a
/// party of none or of more than sixty-four is refused.
pub proof fn law_requests_override_what_they_name(
    prefs: FeedPreferences,
    query: FeedQuery,
    r: Result<FeedPreferences, ApiError>,
)
    requires
        call_ensures(apply_feed_overrides, (prefs, &query), r),
    ensures
        query.party_size is Some && (query.party_size->0 == 0 || query.party_size->0 > 64)
            ==> r is Err && r->Err_0.status == 400,
        query.platforms is None && query.languages is None && query.excluded_modes is None && (
        query.party_size is None || 1 <= query.party_size->0 <= 64) ==> r is Ok,
        r is Ok ==> {
            let new = r->Ok_0;
            &&& query.party_size is Some ==> new.party_size == query.party_size->0 && 1
                <= new.party_size <= 64
            &&& query.party_size is None ==> new.party_size == prefs.party_size
            &&& query.coop_competitive is Some ==> new.coop_competitive == query.coop_competitive->0
            &&& query.coop_competitive is None ==> new.coop_competitive == prefs.coop_competitive
            &&& query.self_hosting_willingness is Some ==> new.self_hosting_willingness
                == query.self_hosting_willingness->0
            &&& query.self_hosting_willingness is None ==> new.self_hosting_willingness
                == prefs.self_hosting_willingness
            &&& query.session_minutes_min is Some ==> new.session_minutes_min
                == query.session_minutes_min->0
            &&& query.session_minutes_min is None ==> new.session_minutes_min
                == prefs.session_minutes_min
            &&& query.session_minutes_max is Some ==> new.session_minutes_max
                == query.session_minutes_max->0
            &&& query.session_minutes_max is None ==> new.session_minutes_max
                == prefs.session_minutes_max
            &&& query.max_price_minor is Some ==> new.budget_max_each_minor
                == query.max_price_minor
            &&& query.max_price_minor is None ==> new.budget_max_each_minor
                == prefs.budget_max_each_minor
            &&& query.currency is Some ==> new.budget_currency@ == to_ascii_upper(
                query.currency->0@,
            )
            &&& query.currency is None ==> new.budget_currency@ == prefs.budget_currency@
            &&& query.platforms is None ==> views(new.platforms@) == views(prefs.platforms@)
            &&& query.languages is None ==> views(new.languages@) == views(prefs.languages@)
            &&& query.excluded_modes is None ==> views(new.excluded_modes@) == views(
                prefs.excluded_modes@,
            )
            &&& query.platforms is Some ==> views(new.platforms@) == csv_values(
                split_on(query.platforms->0@, ','),
            )
            &&& query.languages is Some ==> views(new.languages@) == csv_values(
                split_on(query.languages->0@, ','),
            )
            &&& query.excluded_modes is Some ==> views(new.excluded_modes@) == csv_values(
                split_on(query.excluded_modes->0@, ','),
            )
        },
{
}

/// What a request names is a hard constraint, and nothing else is.
pub proof fn law_named_values_are_hard(query: FeedQuery, r: HardConstraints)
    requires
        call_ensures(hard_constraints_from_feed_query, (&query,), r),
    ensures
        r.party_size <==> query.party_size is Some,
        r.platforms <==> query.platforms is Some,
        r.languages <==> query.languages is Some,
        !r.budget <==> query.max_price_minor is None && query.currency is None,
        !r.session_length <==> query.session_minutes_min is None && query.session_minutes_max
            is None,
        !r.modes <==> query.excluded_modes is None && query.coop_competitive is None
            && query.self_hosting_willingness is None,
{
}

/// A page holds between one and a hundred rows, twenty where nothing is asked for; an internal
/// recall holds up to three hundred. What was found wrong before is answered as such.
pub proof fn law_pages_have_a_size(
    query: FeedQuery,
    internal: bool,
    validated: Result<(), String>,
    r: Result<FeedPlan, ApiError>,
)
    requires
        call_ensures(plan_feed_request, (&query, internal, validated), r),
    ensures
        validated is Err ==> r is Err && r->Err_0.message@ == validated->Err_0@,
        r is Err ==> r->Err_0.status == 400,
        query.limit is Some && (query.limit->0 < 1 || query.limit->0 > 300) ==> r is Err,
        !internal && query.limit is Some && query.limit->0 > 100 ==> r is Err,
        r is Ok && query.limit is Some ==> r->Ok_0.limit == query.limit->0,
        r is Ok && query.limit is None ==> r->Ok_0.limit == 20,
        r is Ok ==> (r->Ok_0.demo_only <==> query.demo_only == Some(true)),
        r is Ok && query.sort is None ==> r->Ok_0.sort is Recommended && r->Ok_0.order is Desc,
        validated is Ok && query.sort is None && query.limit is None ==> r is Ok,
        validated is Ok && query.sort is None && query.limit is Some && 1 <= query.limit->0 <= 100
            ==> r is Ok,
        validated is Ok && query.sort is None && internal && query.limit is Some && 1
            <= query.limit->0 <= 300 ==> r is Ok,
{
}

/// What the reader holds is still good exactly where it carries the same tag.
pub proof fn law_unchanged_is_the_same_tag(held: Option<&str>, etag: &str, r: bool)
    requires
        call_ensures(if_none_match_ok, (held, etag), r),
    ensures
        held is None ==> !r,
        held is Some ==> (r <==> held->0@ == etag@),
{
}

// ---------------------------------------------------------------------------
// The place of a request
// ---------------------------------------------------------------------------

/// A request is placed only in a known section, with a sensible page; the page starts at its
/// number less one times its rows, and what the request overrides is overridden.
pub proof fn law_requests_are_placed(
    request: FeedRequest,
    prefs: FeedPreferences,
    validated: Result<(), String>,
    revision: u64,
    r: Result<FeedPlace, ApiError>,
)
    requires
        call_ensures(locate_feed, (&request, prefs, validated, revision), r),
    ensures
        request.section is None ==> r is Err && r->Err_0.status == 400,
        validated is Err ==> r is Err && r->Err_0.status == 400,
        request.query.page is Some && request.query.page->0 < 1 ==> r is Err && r->Err_0.status
            == 400,
        request.query.party_size is Some && (request.query.party_size->0 == 0
            || request.query.party_size->0 > 64) ==> r is Err,
        request.query.limit is Some && (request.query.limit->0 < 1 || request.query.limit->0 > 300)
            ==> r is Err,
        request.retrieval_ids is None && request.query.limit is Some && request.query.limit->0
            > 100 ==> r is Err,
        r is Ok ==> {
            let place = r->Ok_0;
            &&& request.query.limit is None ==> place.plan.limit == 20
            &&& request.query.limit is Some ==> place.plan.limit == request.query.limit->0
            &&& place.plan.demo_only <==> request.query.demo_only == Some(true)
            &&& request.query.sort is None ==> place.plan.sort is Recommended
            &&& request.query.party_size is Some ==> place.prefs.party_size
                == request.query.party_size->0
            &&& request.query.party_size is None ==> place.prefs.party_size == prefs.party_size
            &&& request.query.page is None && request.query.cursor is None ==> place.offset == 0
            &&& request.query.page == Some(1i64) ==> place.offset == 0
            &&& request.query.page == Some(2i64) ==> place.offset == place.plan.limit
        },
{
    if request.query.page == Some(1i64) {
        let limit = crate::server::feed_request::plan_of(request.query).limit as nat;
        assert(0 * limit == 0) by (nonlinear_arith);
    }
    if request.query.page == Some(2i64) {
        let limit = crate::server::feed_request::plan_of(request.query).limit as nat;
        assert(1 * limit == limit) by (nonlinear_arith);
    }
}

} // verus!
