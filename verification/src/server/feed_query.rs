//! What a feed request asks for: sort and direction, page or cursor, overrides of
//! the stored preferences, and the answers to requests that ask for nothing valid.

use vstd::prelude::*;

use crate::hashing::{hash64, hex16, text_hash, u64_hex16, weak_etag, weak_etag_text};
use crate::numbers::{
    decimal, i64_decimal, int_decimal, lemma_decimal_roundtrip, lemma_int_decimal_roundtrip,
    parse_i64, parse_u64, parsed_i64, parsed_nat, u64_decimal,
};
use crate::score::Score;
use crate::server::errors::{api_error, invalid_argument, refused, ApiError};
use crate::text::{
    ascii_lowercase, ascii_uppercase, bool_str, bool_text, byte_len, lemma_split_concat,
    lemma_split_single, opt_view, split, split_on, str_byte_len, str_eq, str_view, to_ascii_lower,
    to_ascii_upper, trim, trimmed, views,
};

verus! {

/// The largest page of an internal recall.
pub const NATURAL_LANGUAGE_RECALL_LIMIT: usize = 300;

#[derive(Debug, Clone, Copy, PartialEq, Eq, Structural)]
pub enum FeedSection {
    RecentRelease,
    Upcoming,
    PopularLegacy,
    ClassicLegacy,
}

#[derive(Debug, Clone, Copy, PartialEq, Eq, Structural)]
pub enum FeedSort {
    Recommended,
    FitIndex,
    Ccu,
    Reviews,
    ReleaseDate,
}

#[derive(Debug, Clone, Copy, PartialEq, Eq, Structural)]
pub enum FeedSortOrder {
    Asc,
    Desc,
}

/// A request parameter that is absent, or blank, asks for the default.
pub open spec fn given(raw: Option<Seq<char>>) -> Option<Seq<char>> {
    match raw {
        Some(text) => if trimmed(text).len() == 0 {
            None
        } else {
            Some(trimmed(text))
        },
        None => None,
    }
}

fn given_text(raw: Option<&str>) -> (r: Option<String>)
    ensures
        opt_view(r) == given(str_view(raw)),
{
    match raw {
        Some(text) => {
            let t = trim(text);
            if t.as_str().is_empty() {
                None
            } else {
                Some(t)
            }
        },
        None => None,
    }
}

/// The sort that a (trimmed) name asks for.
pub open spec fn sort_named(name: Option<Seq<char>>) -> Option<FeedSort> {
    match name {
        None => Some(FeedSort::Recommended),
        Some(n) => if n == "recommended"@ || n == "score"@ {
            Some(FeedSort::Recommended)
        } else if n == "fit_index"@ || n == "relevance"@ || n == "fit"@ {
            Some(FeedSort::FitIndex)
        } else if n == "ccu"@ || n == "players"@ || n == "player_count"@ {
            Some(FeedSort::Ccu)
        } else if n == "reviews"@ || n == "review_count"@ {
            Some(FeedSort::Reviews)
        } else if n == "release_date"@ || n == "release"@ || n == "date"@ {
            Some(FeedSort::ReleaseDate)
        } else {
            None
        },
    }
}

impl FeedSort {
    pub open spec fn name(self) -> Seq<char> {
        match self {
            FeedSort::Recommended => "recommended"@,
            FeedSort::FitIndex => "fit_index"@,
            FeedSort::Ccu => "ccu"@,
            FeedSort::Reviews => "reviews"@,
            FeedSort::ReleaseDate => "release_date"@,
        }
    }

    pub fn parse(raw: Option<&str>) -> (r: Result<FeedSort, ()>)
        ensures
            r == (match sort_named(given(str_view(raw))) {
                Some(sort) => Ok::<FeedSort, ()>(sort),
                None => Err(()),
            }),
    {
        match given_text(raw) {
            None => Ok(FeedSort::Recommended),
            Some(text) => {
                let n = text.as_str();
                if str_eq(n, "recommended") || str_eq(n, "score") {
                    Ok(FeedSort::Recommended)
                } else if str_eq(n, "fit_index") || str_eq(n, "relevance") || str_eq(n, "fit") {
                    Ok(FeedSort::FitIndex)
                } else if str_eq(n, "ccu") || str_eq(n, "players") || str_eq(n, "player_count") {
                    Ok(FeedSort::Ccu)
                } else if str_eq(n, "reviews") || str_eq(n, "review_count") {
                    Ok(FeedSort::Reviews)
                } else if str_eq(n, "release_date") || str_eq(n, "release") || str_eq(n, "date") {
                    Ok(FeedSort::ReleaseDate)
                } else {
                    Err(())
                }
            },
        }
    }

    pub fn as_str(self) -> (r: &'static str)
        ensures
            r@ == self.name(),
    {
        match self {
            FeedSort::Recommended => "recommended",
            FeedSort::FitIndex => "fit_index",
            FeedSort::Ccu => "ccu",
            FeedSort::Reviews => "reviews",
            FeedSort::ReleaseDate => "release_date",
        }
    }
}

/// The direction that a (trimmed) name asks for. The recommended ranking has no
/// direction: whatever was asked for, it is the canonical one.
pub open spec fn order_named(name: Option<Seq<char>>, sort: FeedSort) -> Option<FeedSortOrder> {
    if sort is Recommended {
        Some(FeedSortOrder::Desc)
    } else {
        match name {
            None => if sort is ReleaseDate {
                Some(FeedSortOrder::Asc)
            } else {
                Some(FeedSortOrder::Desc)
            },
            Some(n) => if n == "asc"@ || n == "ascending"@ {
                Some(FeedSortOrder::Asc)
            } else if n == "desc"@ || n == "descending"@ {
                Some(FeedSortOrder::Desc)
            } else {
                None
            },
        }
    }
}

impl FeedSortOrder {
    pub open spec fn name(self) -> Seq<char> {
        match self {
            FeedSortOrder::Asc => "asc"@,
            FeedSortOrder::Desc => "desc"@,
        }
    }

    pub fn parse(raw: Option<&str>, sort: FeedSort) -> (r: Result<FeedSortOrder, ()>)
        ensures
            r == (match order_named(given(str_view(raw)), sort) {
                Some(order) => Ok::<FeedSortOrder, ()>(order),
                None => Err(()),
            }),
    {
        if matches!(sort, FeedSort::Recommended) {
            return Ok(FeedSortOrder::Desc);
        }
        match given_text(raw) {
            None => {
                if matches!(sort, FeedSort::ReleaseDate) {
                    Ok(FeedSortOrder::Asc)
                } else {
                    Ok(FeedSortOrder::Desc)
                }
            },
            Some(text) => {
                let n = text.as_str();
                if str_eq(n, "asc") || str_eq(n, "ascending") {
                    Ok(FeedSortOrder::Asc)
                } else if str_eq(n, "desc") || str_eq(n, "descending") {
                    Ok(FeedSortOrder::Desc)
                } else {
                    Err(())
                }
            },
        }
    }

    pub fn as_str(self) -> (r: &'static str)
        ensures
            r@ == self.name(),
    {
        match self {
            FeedSortOrder::Asc => "asc",
            FeedSortOrder::Desc => "desc",
        }
    }
}

/// The direction as it enters the result context.
pub open spec fn context_order(sort: FeedSort, order: FeedSortOrder) -> Seq<char> {
    if sort is Recommended {
        "n/a"@
    } else {
        order.name()
    }
}

/// The text whose hash names a result context.
pub open spec fn result_context_text(
    preference_context: Seq<char>,
    sort: FeedSort,
    order: FeedSortOrder,
    demo_only: bool,
) -> Seq<char> {
    preference_context + "|sort="@ + sort.name() + "|order="@ + context_order(sort, order)
        + "|demo_only="@ + bool_text(demo_only)
}

pub fn feed_result_context(
    preference_context: &str,
    sort: FeedSort,
    order: FeedSortOrder,
    demo_only: bool,
) -> (r: String)
    ensures
        r@ == hex16(text_hash(result_context_text(preference_context@, sort, order, demo_only))),
{
    let mut text = preference_context.to_owned();
    text.append("|sort=");
    text.append(sort.as_str());
    text.append("|order=");
    let direction: &str = if matches!(sort, FeedSort::Recommended) {
        "n/a"
    } else {
        order.as_str()
    };
    text.append(direction);
    text.append("|demo_only=");
    text.append(bool_str(demo_only));
    u64_hex16(hash64(text.as_str()))
}

/// The recommended ranking has one result context, whatever direction was asked for.
pub proof fn lemma_recommended_context_ignores_order(
    preference_context: Seq<char>,
    a: FeedSortOrder,
    b: FeedSortOrder,
    demo_only: bool,
)
    ensures
        result_context_text(preference_context, FeedSort::Recommended, a, demo_only)
            == result_context_text(preference_context, FeedSort::Recommended, b, demo_only),
        order_named(None, FeedSort::Recommended) == Some(FeedSortOrder::Desc),
        forall|name: Option<Seq<char>>|
            #[trigger] order_named(name, FeedSort::Recommended) == Some(FeedSortOrder::Desc),
{
}

/// For one set of preferences, the text behind a result context tells the sort, the direction
/// as far as it counts, and the filter.
pub proof fn lemma_context_text_tells(
    preference_context: Seq<char>,
    a: FeedPlan,
    b: FeedPlan,
)
    requires
        result_context_text(preference_context, a.sort, a.order, a.demo_only)
            == result_context_text(preference_context, b.sort, b.order, b.demo_only),
    ensures
        a.sort == b.sort,
        a.sort is Recommended || a.order == b.order,
        a.demo_only == b.demo_only,
{
    let of_a = result_context_text(preference_context, a.sort, a.order, a.demo_only);
    let of_b = result_context_text(preference_context, b.sort, b.order, b.demo_only);
    reveal_strlit("recommended");
    reveal_strlit("fit_index");
    reveal_strlit("ccu");
    reveal_strlit("reviews");
    reveal_strlit("release_date");
    reveal_strlit("n/a");
    reveal_strlit("asc");
    reveal_strlit("desc");
    reveal_strlit("true");
    reveal_strlit("false");
    let at_sort = (preference_context + "|sort="@).len() as int;
    assert(of_a[at_sort] == a.sort.name()[0] && of_b[at_sort] == b.sort.name()[0]);
    assert(of_a[at_sort + 2] == a.sort.name()[2] && of_b[at_sort + 2] == b.sort.name()[2]);
    assert(a.sort == b.sort);
    let at_order = at_sort + a.sort.name().len() + "|order="@.len();
    assert(of_a[at_order] == context_order(a.sort, a.order)[0]);
    assert(of_b[at_order] == context_order(b.sort, b.order)[0]);
    assert(context_order(a.sort, a.order) == context_order(b.sort, b.order));
    let at_demo = at_order + context_order(a.sort, a.order).len() + "|demo_only="@.len();
    assert(of_a[at_demo] == bool_text(a.demo_only)[0]);
    assert(of_b[at_demo] == bool_text(b.demo_only)[0]);
}

// ---------------------------------------------------------------------------
// Cursors
// ---------------------------------------------------------------------------

/// A cursor is refused because it is malformed, or because the result that it
/// pages through is no longer the current one.
#[derive(Debug, Clone, Copy, PartialEq, Eq, Structural)]
pub enum CursorError {
    Invalid,
    Stale,
}

pub open spec fn cursor_text(
    section: Seq<char>,
    snapshot_ms: int,
    context: Seq<char>,
    revision: nat,
    offset: nat,
) -> Seq<char> {
    "v2:"@ + section + ":"@ + int_decimal(snapshot_ms) + ":"@ + context + ":"@ + decimal(revision)
        + ":"@ + decimal(offset)
}

pub fn encode_cursor(
    section: &str,
    snapshot_ms: i64,
    preference_context: &str,
    play_intent_revision: u64,
    offset: usize,
) -> (r: String)
    ensures
        r@ == cursor_text(
            section@,
            snapshot_ms as int,
            preference_context@,
            play_intent_revision as nat,
            offset as nat,
        ),
{
    let mut out = "v2:".to_owned();
    out.append(section);
    out.append(":");
    out.append(i64_decimal(snapshot_ms).as_str());
    out.append(":");
    out.append(preference_context);
    out.append(":");
    out.append(u64_decimal(play_intent_revision).as_str());
    out.append(":");
    out.append(u64_decimal(offset as u64).as_str());
    out
}

/// The six parts of a cursor: version, section, snapshot, context, revision, offset.
pub open spec fn cursor_parts_valid(parts: Seq<Seq<char>>, section: Seq<char>) -> bool {
    &&& parts.len() == 6
    &&& parts[0] == "v2"@
    &&& parts[1] == section
    &&& parsed_i64(parts[2]) is Some
    &&& parsed_nat(parts[4], u64::MAX as nat) is Some
    &&& parsed_nat(parts[5], usize::MAX as nat) is Some
}

/// What a cursor says to a request: an offset, or why it is refused.
pub open spec fn decoded_cursor(
    cursor: Option<Seq<char>>,
    section: Seq<char>,
    snapshot_ms: int,
    context: Seq<char>,
    revision: nat,
) -> Result<nat, CursorError> {
    match cursor {
        None => Ok(0),
        Some(text) => {
            let parts = split_on(text, ':');
            if parts[0] == "v1"@ {
                Err(CursorError::Stale)
            } else if !cursor_parts_valid(parts, section) {
                Err(CursorError::Invalid)
            } else if parsed_i64(parts[2]) != Some(snapshot_ms) || parts[3] != context
                || parsed_nat(parts[4], u64::MAX as nat) != Some(revision) {
                Err(CursorError::Stale)
            } else {
                Ok(parsed_nat(parts[5], usize::MAX as nat)->0)
            }
        },
    }
}

pub fn decode_cursor(
    cursor: Option<&str>,
    expected_section: &str,
    expected_snapshot_ms: i64,
    expected_preference_context: &str,
    expected_play_intent_revision: u64,
) -> (r: Result<usize, CursorError>)
    ensures
        (match r {
            Ok(offset) => Ok::<nat, CursorError>(offset as nat),
            Err(e) => Err(e),
        }) == decoded_cursor(
            str_view(cursor),
            expected_section@,
            expected_snapshot_ms as int,
            expected_preference_context@,
            expected_play_intent_revision as nat,
        ),
{
    let text = match cursor {
        None => return Ok(0),
        Some(text) => text,
    };
    let parts = split(text, ':');
    assert forall|i: int| 0 <= i < parts@.len() implies split_on(text@, ':')[i] == (
    #[trigger] parts@[i])@ by {
        assert(views(parts@)[i] == parts@[i]@);
    }
    assert(parts@.len() == split_on(text@, ':').len()) by {
        assert(views(parts@).len() == parts@.len());
    }
    if str_eq(parts[0].as_str(), "v1") {
        return Err(CursorError::Stale);
    }
    if parts.len() != 6 {
        return Err(CursorError::Invalid);
    }
    let snapshot = parse_i64(parts[2].as_str());
    let revision = parse_u64(parts[4].as_str(), u64::MAX);
    let offset = parse_u64(parts[5].as_str(), usize::MAX as u64);
    match (snapshot, revision, offset) {
        (Some(snapshot), Some(revision), Some(offset)) => {
            if !str_eq(parts[0].as_str(), "v2") || !str_eq(parts[1].as_str(), expected_section) {
                return Err(CursorError::Invalid);
            }
            if snapshot != expected_snapshot_ms || !str_eq(
                parts[3].as_str(),
                expected_preference_context,
            ) || revision != expected_play_intent_revision {
                return Err(CursorError::Stale);
            }
            Ok(offset as usize)
        },
        _ => Err(CursorError::Invalid),
    }
}

/// A cursor that was handed out for a result is understood as the same offset by a
/// request for the same result.
pub proof fn lemma_cursor_roundtrip(
    section: Seq<char>,
    snapshot_ms: int,
    context: Seq<char>,
    revision: nat,
    offset: nat,
)
    requires
        i64::MIN <= snapshot_ms <= i64::MAX,
        revision <= u64::MAX,
        offset <= usize::MAX,
        !section.contains(':'),
        !context.contains(':'),
    ensures
        split_on(cursor_text(section, snapshot_ms, context, revision, offset), ':') == seq![
            "v2"@,
            section,
            int_decimal(snapshot_ms),
            context,
            decimal(revision),
            decimal(offset),
        ],
        decoded_cursor(
            Some(cursor_text(section, snapshot_ms, context, revision, offset)),
            section,
            snapshot_ms,
            context,
            revision,
        ) == Ok::<nat, CursorError>(offset),
{
    reveal_strlit("v2:");
    reveal_strlit("v2");
    reveal_strlit("v1");
    reveal_strlit(":");
    let snap = int_decimal(snapshot_ms);
    let rev = decimal(revision);
    let off = decimal(offset);
    lemma_int_decimal_roundtrip(snapshot_ms);
    lemma_decimal_roundtrip(revision, u64::MAX as nat);
    lemma_decimal_roundtrip(offset, usize::MAX as nat);
    assert(!snap.contains(':'));
    assert(!rev.contains(':'));
    assert(!off.contains(':'));
    assert(!"v2"@.contains(':'));
    let e = off;
    let d = rev.push(':') + e;
    let c = context.push(':') + d;
    let b = snap.push(':') + c;
    let a = section.push(':') + b;
    let whole = "v2"@.push(':') + a;
    assert(whole =~= cursor_text(section, snapshot_ms, context, revision, offset));
    lemma_split_single(off, ':');
    lemma_split_single(rev, ':');
    lemma_split_single(context, ':');
    lemma_split_single(snap, ':');
    lemma_split_single(section, ':');
    lemma_split_single("v2"@, ':');
    lemma_split_concat(rev, ':', e);
    lemma_split_concat(context, ':', d);
    lemma_split_concat(snap, ':', c);
    lemma_split_concat(section, ':', b);
    lemma_split_concat("v2"@, ':', a);
    assert(split_on(whole, ':') =~= seq!["v2"@, section, snap, context, rev, off]);
    assert("v2"@[1] == '2');
    assert("v1"@[1] == '1');
}

/// A cursor of one result is never taken as an offset into another: when the
/// snapshot, the context or the revision has moved on, the answer is that it is
/// stale.
pub proof fn lemma_cursor_of_other_result_is_stale(
    section: Seq<char>,
    snapshot_ms: int,
    context: Seq<char>,
    revision: nat,
    offset: nat,
    now_snapshot_ms: int,
    now_context: Seq<char>,
    now_revision: nat,
)
    requires
        i64::MIN <= snapshot_ms <= i64::MAX,
        revision <= u64::MAX,
        offset <= usize::MAX,
        !section.contains(':'),
        !context.contains(':'),
        snapshot_ms != now_snapshot_ms || context != now_context || revision != now_revision,
    ensures
        decoded_cursor(
            Some(cursor_text(section, snapshot_ms, context, revision, offset)),
            section,
            now_snapshot_ms,
            now_context,
            now_revision,
        ) == Err::<nat, CursorError>(CursorError::Stale),
{
    lemma_cursor_roundtrip(section, snapshot_ms, context, revision, offset);
    lemma_int_decimal_roundtrip(snapshot_ms);
    lemma_decimal_roundtrip(revision, u64::MAX as nat);
    lemma_decimal_roundtrip(offset, usize::MAX as nat);
    reveal_strlit("v2");
    reveal_strlit("v1");
    assert("v2"@[1] == '2');
    assert("v1"@[1] == '1');
}

/// The offset that a page number stands for, as far as it can be counted.
pub open spec fn page_offset(page: int, limit: nat) -> nat {
    let index = if page - 1 <= usize::MAX {
        page - 1
    } else {
        usize::MAX as int
    };
    if index * limit <= usize::MAX {
        (index * limit) as nat
    } else {
        usize::MAX as nat
    }
}

/// Where the page of a feed request starts. A page number wins over a cursor.
pub fn feed_offset(
    page: Option<i64>,
    cursor: Option<&str>,
    section: &str,
    snapshot_ms: i64,
    result_context: &str,
    play_intent_revision: u64,
    limit: usize,
) -> (r: Result<usize, ApiError>)
    ensures
        page is Some && page->0 < 1 ==> refused(r, "page must be >= 1"@),
        page is Some && page->0 >= 1 ==> (r matches Ok(offset) && offset == page_offset(
            page->0 as int,
            limit as nat,
        )),
        page is None ==> match decoded_cursor(
            str_view(cursor),
            section@,
            snapshot_ms as int,
            result_context@,
            play_intent_revision as nat,
        ) {
            Ok(offset) => r matches Ok(o) && o == offset,
            Err(CursorError::Invalid) => refused(r, "invalid feed cursor"@),
            Err(CursorError::Stale) => r matches Err(e) && e.is(
                409,
                "cursor_stale"@,
                "feed cursor snapshot is stale; restart pagination"@,
            ),
        },
{
    match page {
        Some(page) => {
            if page < 1 {
                return Err(invalid_argument("page must be >= 1"));
            }
            let wanted: u64 = (page - 1) as u64;
            let index: usize = if wanted <= usize::MAX as u64 {
                wanted as usize
            } else {
                usize::MAX
            };
            match index.checked_mul(limit) {
                Some(offset) => Ok(offset),
                None => Ok(usize::MAX),
            }
        },
        None => match decode_cursor(
            cursor,
            section,
            snapshot_ms,
            result_context,
            play_intent_revision,
        ) {
            Ok(offset) => Ok(offset),
            Err(CursorError::Invalid) => Err(invalid_argument("invalid feed cursor")),
            Err(CursorError::Stale) => Err(
                api_error(
                    409,
                    "cursor_stale",
                    "feed cursor snapshot is stale; restart pagination",
                ),
            ),
        },
    }
}

// ---------------------------------------------------------------------------
// Overrides of the stored preferences
// ---------------------------------------------------------------------------

/// The query of a feed request, as far as it was given.
#[derive(Debug)]
pub struct FeedQuery {
    pub limit: Option<i64>,
    /// One-based; wins over the cursor.
    pub page: Option<i64>,
    pub cursor: Option<String>,
    pub party_size: Option<u8>,
    pub coop_competitive: Option<Score>,
    pub self_hosting_willingness: Option<Score>,
    pub platforms: Option<String>,
    pub languages: Option<String>,
    pub excluded_modes: Option<String>,
    pub session_minutes_min: Option<u32>,
    pub session_minutes_max: Option<u32>,
    pub max_price_minor: Option<i64>,
    pub currency: Option<String>,
    pub demo_only: Option<bool>,
    pub sort: Option<String>,
    pub order: Option<String>,
}

/// The preferences that the ranking reads and a request may override.
#[derive(Debug)]
pub struct FeedPreferences {
    pub party_size: u8,
    pub coop_competitive: Score,
    pub self_hosting_willingness: Score,
    pub platforms: Vec<String>,
    pub languages: Vec<String>,
    pub excluded_modes: Vec<String>,
    pub session_minutes_min: u32,
    pub session_minutes_max: u32,
    pub budget_max_each_minor: Option<i64>,
    pub budget_currency: String,
}

/// The values of a comma-separated list: trimmed, in lower case, blanks left out.
pub open spec fn csv_values(parts: Seq<Seq<char>>) -> Seq<Seq<char>>
    decreases parts.len(),
{
    if parts.len() == 0 {
        Seq::empty()
    } else {
        let front = csv_values(parts.drop_last());
        let part = trimmed(parts.last());
        if part.len() == 0 {
            front
        } else {
            front.push(to_ascii_lower(part))
        }
    }
}

/// A list of 1 to 32 values of at most 64 bytes each.
pub open spec fn csv_accepted(values: Seq<Seq<char>>) -> bool {
    1 <= values.len() <= 32 && forall|i: int|
        0 <= i < values.len() ==> byte_len(#[trigger] values[i]) <= 64
}

pub open spec fn csv_message(name: Seq<char>) -> Seq<char> {
    name + " must be a comma-separated list of 1 to 32 values"@
}

pub fn parse_csv_filter(name: &str, value: &str) -> (r: Result<Vec<String>, ApiError>)
    ensures
        ({
            let values = csv_values(split_on(value@, ','));
            if csv_accepted(values) {
                r matches Ok(list) && views(list@) == values
            } else {
                refused(r, csv_message(name@))
            }
        }),
{
    let parts = split(value, ',');
    let mut values: Vec<String> = Vec::new();
    let mut i: usize = 0;
    assert(views(parts@).take(0) =~= Seq::empty());
    assert(views(values@) =~= Seq::empty());
    while i < parts.len()
        invariant
            0 <= i <= parts@.len(),
            views(values@) == csv_values(views(parts@).take(i as int)),
        decreases parts@.len() - i,
    {
        let part = trim(parts[i].as_str());
        proof {
            let next = views(parts@).take(i + 1);
            assert(next.drop_last() =~= views(parts@).take(i as int));
            assert(next.last() == parts@[i as int]@);
        }
        if !part.as_str().is_empty() {
            let lower = ascii_lowercase(part.as_str());
            proof {
                assert(views(values@.push(lower)) =~= views(values@).push(lower@));
            }
            values.push(lower);
        }
        i = i + 1;
    }
    assert(views(parts@).take(parts@.len() as int) =~= split_on(value@, ','));
    let ghost all = csv_values(split_on(value@, ','));
    assert(views(values@) == all);
    let mut fits = values.len() >= 1 && values.len() <= 32;
    let mut j: usize = 0;
    while fits && j < values.len()
        invariant
            0 <= j <= values@.len(),
            views(values@) == all,
            fits ==> 1 <= values@.len() <= 32,
            fits ==> forall|k: int| 0 <= k < j ==> byte_len(#[trigger] all[k]) <= 64,
            !fits ==> !csv_accepted(all),
        decreases values@.len() - j + (if fits { 1int } else { 0int }),
    {
        assert(all[j as int] == values@[j as int]@);
        if str_byte_len(values[j].as_str()) > 64 {
            fits = false;
        } else {
            j = j + 1;
        }
    }
    if fits {
        Ok(values)
    } else {
        let mut message = name.to_owned();
        message.append(" must be a comma-separated list of 1 to 32 values");
        Err(invalid_argument(message.as_str()))
    }
}

/// The list that an optional filter asks for, or why it is refused.
pub open spec fn filter_accepted(filter: Option<String>) -> bool {
    filter matches Some(text) ==> csv_accepted(csv_values(split_on(text@, ',')))
}

/// The stored list, unless a filter replaces it.
pub open spec fn filtered_list(filter: Option<String>, stored: Seq<String>) -> Seq<Seq<char>> {
    match filter {
        Some(text) => csv_values(split_on(text@, ',')),
        None => views(stored),
    }
}

/// The given value, unless the request has one of its own.
pub open spec fn or_stored<T>(given: Option<T>, stored: T) -> T {
    match given {
        Some(value) => value,
        None => stored,
    }
}

/// The preferences that a request ranks with.
pub open spec fn overridden(
    new: FeedPreferences,
    old: FeedPreferences,
    query: FeedQuery,
) -> bool {
    &&& new.party_size == or_stored(query.party_size, old.party_size)
    &&& new.coop_competitive == or_stored(query.coop_competitive, old.coop_competitive)
    &&& new.self_hosting_willingness == or_stored(
        query.self_hosting_willingness,
        old.self_hosting_willingness,
    )
    &&& views(new.platforms@) == filtered_list(query.platforms, old.platforms@)
    &&& views(new.languages@) == filtered_list(query.languages, old.languages@)
    &&& views(new.excluded_modes@) == filtered_list(query.excluded_modes, old.excluded_modes@)
    &&& new.session_minutes_min == or_stored(query.session_minutes_min, old.session_minutes_min)
    &&& new.session_minutes_max == or_stored(query.session_minutes_max, old.session_minutes_max)
    &&& new.budget_max_each_minor == (if query.max_price_minor is Some {
        query.max_price_minor
    } else {
        old.budget_max_each_minor
    })
    &&& new.budget_currency@ == (match query.currency {
        Some(currency) => to_ascii_upper(currency@),
        None => old.budget_currency@,
    })
}

/// A party has 1 to 64 members.
pub open spec fn party_size_accepted(query: FeedQuery) -> bool {
    query.party_size matches Some(n) ==> 1 <= n <= 64
}

fn filter_or_stored(name: &str, filter: &Option<String>, stored: Vec<String>) -> (r: Result<
    Vec<String>,
    ApiError,
>)
    ensures
        filter_accepted(*filter) ==> (r matches Ok(list) && views(list@) == filtered_list(
            *filter,
            stored@,
        )),
        !filter_accepted(*filter) ==> refused(r, csv_message(name@)),
{
    match filter {
        Some(text) => parse_csv_filter(name, text.as_str()),
        None => Ok(stored),
    }
}

/// The party size and the overrides of a request, laid over the stored preferences.
/// The first override that is not acceptable decides the answer.
pub fn apply_feed_overrides(prefs: FeedPreferences, query: &FeedQuery) -> (r: Result<
    FeedPreferences,
    ApiError,
>)
    ensures
        !party_size_accepted(*query) ==> refused(r, "party_size must be between 1 and 64"@),
        party_size_accepted(*query) && !filter_accepted(query.platforms) ==> refused(
            r,
            csv_message("platforms"@),
        ),
        party_size_accepted(*query) && filter_accepted(query.platforms) && !filter_accepted(
            query.languages,
        ) ==> refused(r, csv_message("languages"@)),
        party_size_accepted(*query) && filter_accepted(query.platforms) && filter_accepted(
            query.languages,
        ) && !filter_accepted(query.excluded_modes) ==> refused(r, csv_message("excluded_modes"@)),
        party_size_accepted(*query) && filter_accepted(query.platforms) && filter_accepted(
            query.languages,
        ) && filter_accepted(query.excluded_modes) ==> (r matches Ok(new) && overridden(
            new,
            prefs,
            *query,
        )),
{
    let party_size: u8 = match query.party_size {
        Some(n) => {
            if n < 1 || n > 64 {
                return Err(invalid_argument("party_size must be between 1 and 64"));
            }
            n
        },
        None => prefs.party_size,
    };
    let platforms = match filter_or_stored("platforms", &query.platforms, prefs.platforms) {
        Ok(list) => list,
        Err(e) => return Err(e),
    };
    let languages = match filter_or_stored("languages", &query.languages, prefs.languages) {
        Ok(list) => list,
        Err(e) => return Err(e),
    };
    let excluded_modes = match filter_or_stored(
        "excluded_modes",
        &query.excluded_modes,
        prefs.excluded_modes,
    ) {
        Ok(list) => list,
        Err(e) => return Err(e),
    };
    let budget_max_each_minor = match query.max_price_minor {
        Some(value) => Some(value),
        None => prefs.budget_max_each_minor,
    };
    let budget_currency = match &query.currency {
        Some(currency) => ascii_uppercase(currency.as_str()),
        None => prefs.budget_currency,
    };
    Ok(
        FeedPreferences {
            party_size,
            coop_competitive: match query.coop_competitive {
                Some(value) => value,
                None => prefs.coop_competitive,
            },
            self_hosting_willingness: match query.self_hosting_willingness {
                Some(value) => value,
                None => prefs.self_hosting_willingness,
            },
            platforms,
            languages,
            excluded_modes,
            session_minutes_min: match query.session_minutes_min {
                Some(value) => value,
                None => prefs.session_minutes_min,
            },
            session_minutes_max: match query.session_minutes_max {
                Some(value) => value,
                None => prefs.session_minutes_max,
            },
            budget_max_each_minor,
            budget_currency,
        },
    )
}

/// The dimensions in which a request filters, rather than only prefers.
#[derive(Debug, Clone, Copy, PartialEq, Eq, Structural)]
pub struct HardConstraints {
    pub modes: bool,
    pub party_size: bool,
    pub platforms: bool,
    pub languages: bool,
    pub session_length: bool,
    pub budget: bool,
}

/// A dimension is a hard filter exactly when the request names it.
pub open spec fn named_constraints(query: FeedQuery) -> HardConstraints {
    HardConstraints {
        modes: query.excluded_modes is Some || query.coop_competitive is Some
            || query.self_hosting_willingness is Some,
        party_size: query.party_size is Some,
        platforms: query.platforms is Some,
        languages: query.languages is Some,
        session_length: query.session_minutes_min is Some || query.session_minutes_max is Some,
        budget: query.max_price_minor is Some || query.currency is Some,
    }
}

pub fn hard_constraints_from_feed_query(query: &FeedQuery) -> (r: HardConstraints)
    ensures
        r == named_constraints(*query),
{
    HardConstraints {
        modes: query.excluded_modes.is_some() || query.coop_competitive.is_some()
            || query.self_hosting_willingness.is_some(),
        party_size: query.party_size.is_some(),
        platforms: query.platforms.is_some(),
        languages: query.languages.is_some(),
        session_length: query.session_minutes_min.is_some() || query.session_minutes_max.is_some(),
        budget: query.max_price_minor.is_some() || query.currency.is_some(),
    }
}

// ---------------------------------------------------------------------------
// The plan of a request
// ---------------------------------------------------------------------------

/// What an acceptable feed request asks for.
#[derive(Debug, Clone, Copy, PartialEq, Eq, Structural)]
pub struct FeedPlan {
    pub limit: usize,
    pub sort: FeedSort,
    pub order: FeedSortOrder,
    pub demo_only: bool,
}

/// The largest page that may be asked for.
pub open spec fn max_limit(internal: bool) -> int {
    if internal {
        NATURAL_LANGUAGE_RECALL_LIMIT as int
    } else {
        100
    }
}

/// Checks page size, sort and direction, in this order. `validated` is what the
/// preferences' own validation said.
pub fn plan_feed_request(
    query: &FeedQuery,
    internal: bool,
    validated: Result<(), String>,
) -> (r: Result<FeedPlan, ApiError>)
    ensures
        validated is Err ==> refused(r, validated->Err_0@),
        validated is Ok ==> {
            let limit = or_stored(query.limit, 20i64);
            let sort = sort_named(given(opt_view(query.sort)));
            if !(1 <= limit <= max_limit(internal)) {
                refused(r, "limit must be between 1 and "@ + decimal(max_limit(internal) as nat))
            } else if sort is None {
                refused(
                    r,
                    "sort must be recommended, fit_index, ccu, reviews, or release_date"@,
                )
            } else if order_named(given(opt_view(query.order)), sort->0) is None {
                refused(r, "order must be asc or desc"@)
            } else {
                r matches Ok(plan) && plan.limit == limit && plan.sort == sort->0 && plan.order
                    == order_named(given(opt_view(query.order)), sort->0)->0 && plan.demo_only == (
                query.demo_only == Some(true))
            }
        },
{
    match validated {
        Err(message) => return Err(invalid_argument(message.as_str())),
        Ok(()) => {},
    }
    let requested: i64 = match query.limit {
        Some(limit) => limit,
        None => 20,
    };
    let most: i64 = if internal {
        NATURAL_LANGUAGE_RECALL_LIMIT as i64
    } else {
        100
    };
    if requested < 1 || requested > most {
        let mut message = "limit must be between 1 and ".to_owned();
        message.append(u64_decimal(most as u64).as_str());
        return Err(invalid_argument(message.as_str()));
    }
    let sort_name: Option<&str> = match &query.sort {
        Some(text) => Some(text.as_str()),
        None => None,
    };
    let sort = match FeedSort::parse(sort_name) {
        Ok(sort) => sort,
        Err(()) => return Err(
            invalid_argument("sort must be recommended, fit_index, ccu, reviews, or release_date"),
        ),
    };
    let order_name: Option<&str> = match &query.order {
        Some(text) => Some(text.as_str()),
        None => None,
    };
    let order = match FeedSortOrder::parse(order_name, sort) {
        Ok(order) => order,
        Err(()) => return Err(invalid_argument("order must be asc or desc")),
    };
    let demo_only = match query.demo_only {
        Some(value) => value,
        None => false,
    };
    Ok(FeedPlan { limit: requested as usize, sort, order, demo_only })
}

/// The result context as it stands in cursors and tags: it changes with the day on
/// which ties are broken.
pub open spec fn dated_context(
    preference_context: Seq<char>,
    plan: FeedPlan,
    utc_day: Seq<char>,
) -> Seq<char> {
    hex16(text_hash(result_context_text(preference_context, plan.sort, plan.order, plan.demo_only)))
        + "|tie_day="@ + utc_day
}

pub fn dated_result_context(preference_context: &str, plan: &FeedPlan, utc_day: &str) -> (r: String)
    ensures
        r@ == dated_context(preference_context@, *plan, utc_day@),
{
    let mut out = feed_result_context(preference_context, plan.sort, plan.order, plan.demo_only);
    out.append("|tie_day=");
    out.append(utc_day);
    out
}

/// What the entity tag of a feed page depends on.
#[derive(Debug)]
pub struct FeedTag {
    pub build: String,
    pub section: String,
    pub snapshot_ms: i64,
    pub result_context: String,
    pub offset: usize,
    pub limit: usize,
    pub config_version: String,
    pub play_intent_revision: u64,
    pub user_id: Option<String>,
    pub sort: FeedSort,
    pub order: FeedSortOrder,
    pub demo_only: bool,
}

pub open spec fn feed_tag_text(tag: FeedTag) -> Seq<char> {
    "feed:v6:"@ + tag.build@ + ":"@ + tag.section@ + ":"@ + int_decimal(tag.snapshot_ms as int)
        + ":"@ + tag.result_context@ + ":"@ + decimal(tag.offset as nat) + ":"@ + decimal(
        tag.limit as nat,
    ) + ":"@ + tag.config_version@ + ":pi"@ + decimal(tag.play_intent_revision as nat) + ":user"@
        + (match tag.user_id {
        Some(id) => id@,
        None => "public"@,
    }) + ":sort"@ + tag.sort.name() + ":order"@ + tag.order.name() + ":demo"@ + bool_text(
        tag.demo_only,
    )
}

pub fn feed_etag(tag: &FeedTag) -> (r: String)
    ensures
        r@ == weak_etag_text(feed_tag_text(*tag)),
{
    let mut text = "feed:v6:".to_owned();
    text.append(tag.build.as_str());
    text.append(":");
    text.append(tag.section.as_str());
    text.append(":");
    text.append(i64_decimal(tag.snapshot_ms).as_str());
    text.append(":");
    text.append(tag.result_context.as_str());
    text.append(":");
    text.append(u64_decimal(tag.offset as u64).as_str());
    text.append(":");
    text.append(u64_decimal(tag.limit as u64).as_str());
    text.append(":");
    text.append(tag.config_version.as_str());
    text.append(":pi");
    text.append(u64_decimal(tag.play_intent_revision).as_str());
    text.append(":user");
    let who: &str = match &tag.user_id {
        Some(id) => id.as_str(),
        None => "public",
    };
    text.append(who);
    text.append(":sort");
    text.append(tag.sort.as_str());
    text.append(":order");
    text.append(tag.order.as_str());
    text.append(":demo");
    text.append(bool_str(tag.demo_only));
    weak_etag(text.as_str())
}

/// Whether the client already holds the tagged answer.
pub fn if_none_match_ok(if_none_match: Option<&str>, etag: &str) -> (r: bool)
    ensures
        r == (if_none_match is Some && if_none_match->0@ == etag@),
{
    match if_none_match {
        Some(held) => str_eq(held, etag),
        None => false,
    }
}

/// A piece of feedback that is still in force.
#[derive(Debug)]
pub struct ActiveFeedback {
    pub app_id: u32,
    pub feedback_type: String,
}

/// `|app_id:type` for each piece of feedback.
pub open spec fn feedback_suffix(feedback: Seq<ActiveFeedback>) -> Seq<char>
    decreases feedback.len(),
{
    if feedback.len() == 0 {
        Seq::empty()
    } else {
        feedback_suffix(feedback.drop_last()) + "|"@ + decimal(feedback.last().app_id as nat) + ":"@
            + feedback.last().feedback_type@
    }
}

/// The name of everything about the user that a ranking depends on. `prefs_json` and
/// `config_json` are the serialised preferences and ranking configuration.
pub fn recommendation_context(
    prefs_json: &str,
    feedback: &Vec<ActiveFeedback>,
    algorithm_version: &str,
    config_json: &str,
) -> (r: String)
    ensures
        r@ == crate::numbers::hex(
            text_hash(
                prefs_json@ + "|"@ + algorithm_version@ + "|"@ + config_json@ + feedback_suffix(
                    feedback@,
                ),
            ) as nat,
        ),
{
    let mut context = prefs_json.to_owned();
    context.append("|");
    context.append(algorithm_version);
    context.append("|");
    context.append(config_json);
    let ghost head = context@;
    let mut i: usize = 0;
    assert(feedback@.take(0) =~= Seq::empty());
    while i < feedback.len()
        invariant
            0 <= i <= feedback@.len(),
            context@ == head + feedback_suffix(feedback@.take(i as int)),
        decreases feedback@.len() - i,
    {
        proof {
            let next = feedback@.take(i + 1);
            assert(next.drop_last() =~= feedback@.take(i as int));
            assert(next.last() == feedback@[i as int]);
        }
        let ghost before = context@;
        context.append("|");
        context.append(u64_decimal(feedback[i].app_id as u64).as_str());
        context.append(":");
        context.append(feedback[i].feedback_type.as_str());
        i = i + 1;
        assert(context@ =~= head + feedback_suffix(feedback@.take(i as int)));
    }
    assert(feedback@.take(feedback@.len() as int) =~= feedback@);
    crate::numbers::u64_hex(hash64(context.as_str()))
}

}
