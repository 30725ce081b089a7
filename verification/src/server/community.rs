//! The community board: the games that members want to play, page by page.

use vstd::prelude::*;

use crate::hashing::{hash64, text_hash, weak_etag, weak_etag_text};
use crate::numbers::{
    decimal, hex, lemma_decimal_roundtrip, parse_u64, parsed_nat, u64_decimal, u64_hex,
};
use crate::server::avatar::avatar_url;
use crate::server::errors::{api_error, invalid_argument, refused, ApiError};
use crate::server::feed_query::{if_none_match_ok, CursorError};
use crate::text::{
    ascii_lowercase, lemma_split_concat, lemma_split_single, opt_view, split, split_on, str_eq,
    str_view, to_ascii_lower, trim, trimmed, views,
};

verus! {

#[derive(Debug, Clone, Copy, PartialEq, Eq, Structural)]
pub enum CommunitySort {
    Trending,
    MostVoted,
}

impl CommunitySort {
    pub open spec fn name(self) -> Seq<char> {
        match self {
            CommunitySort::Trending => "trending"@,
            CommunitySort::MostVoted => "most_voted"@,
        }
    }

    pub fn as_str(self) -> (r: &'static str)
        ensures
            r@ == self.name(),
    {
        match self {
            CommunitySort::Trending => "trending",
            CommunitySort::MostVoted => "most_voted",
        }
    }
}

/// The sort that a request asks for.
pub open spec fn community_sort(raw: Option<Seq<char>>) -> Option<CommunitySort> {
    match raw {
        None => Some(CommunitySort::Trending),
        Some(name) => if name == "trending"@ {
            Some(CommunitySort::Trending)
        } else if name == "most_voted"@ {
            Some(CommunitySort::MostVoted)
        } else {
            None
        },
    }
}

#[derive(Debug)]
pub struct CommunityQuery {
    pub sort: Option<String>,
    pub limit: Option<i64>,
    pub cursor: Option<String>,
    pub release_state: Option<String>,
    pub demo_only: Option<bool>,
    pub platform: Option<String>,
    pub party_size: Option<u8>,
}

#[derive(Debug)]
pub struct CommunityFilters {
    pub release_state: Option<String>,
    pub demo_only: bool,
    pub platform: Option<String>,
    pub party_size: Option<u8>,
}

// ---------------------------------------------------------------------------
// Filters
// ---------------------------------------------------------------------------

/// A filter that is absent or empty asks for everything; any other is compared in lower
/// case, without the white space around it.
pub open spec fn wanted(raw: Option<Seq<char>>) -> Option<Seq<char>> {
    match raw {
        Some(value) => if value.len() == 0 {
            None
        } else {
            Some(to_ascii_lower(trimmed(value)))
        },
        None => None,
    }
}

fn wanted_text(raw: &Option<String>) -> (r: Option<String>)
    ensures
        opt_view(r) == wanted(opt_view(*raw)),
{
    match raw {
        Some(value) => {
            if value.as_str().is_empty() {
                None
            } else {
                Some(ascii_lowercase(trim(value.as_str()).as_str()))
            }
        },
        None => None,
    }
}

pub open spec fn is_release_state(name: Seq<char>) -> bool {
    name == "released"@ || name == "upcoming"@ || name == "coming_soon"@ || name == "retired"@
        || name == "unknown"@
}

pub open spec fn is_platform(name: Seq<char>) -> bool {
    name == "windows"@ || name == "macos"@ || name == "linux"@
}

/// What is wrong with the filters of a request.
pub open spec fn filter_fault(query: CommunityQuery) -> Option<Seq<char>> {
    let state = wanted(opt_view(query.release_state));
    let platform = wanted(opt_view(query.platform));
    if state is Some && !is_release_state(state->0) {
        Some("release_state is not supported"@)
    } else if platform is Some && !is_platform(platform->0) {
        Some("platform must be windows, macos, or linux"@)
    } else if query.party_size is Some && !(1 <= query.party_size->0 <= 64) {
        Some("party_size must be between 1 and 64"@)
    } else {
        None
    }
}

/// The filters are those of the request.
pub open spec fn filters_of(filters: CommunityFilters, query: CommunityQuery) -> bool {
    &&& opt_view(filters.release_state) == wanted(opt_view(query.release_state))
    &&& filters.demo_only == (query.demo_only == Some(true))
    &&& opt_view(filters.platform) == wanted(opt_view(query.platform))
    &&& filters.party_size == query.party_size
}

pub fn community_filters_from_query(query: &CommunityQuery) -> (r: Result<
    CommunityFilters,
    ApiError,
>)
    ensures
        match filter_fault(*query) {
            Some(message) => refused(r, message),
            None => r matches Ok(filters) && filters_of(filters, *query),
        },
{
    let release_state = wanted_text(&query.release_state);
    if let Some(state) = &release_state {
        let s = state.as_str();
        if !(str_eq(s, "released") || str_eq(s, "upcoming") || str_eq(s, "coming_soon") || str_eq(
            s,
            "retired",
        ) || str_eq(s, "unknown")) {
            return Err(invalid_argument("release_state is not supported"));
        }
    }
    let platform = wanted_text(&query.platform);
    if let Some(name) = &platform {
        let p = name.as_str();
        if !(str_eq(p, "windows") || str_eq(p, "macos") || str_eq(p, "linux")) {
            return Err(invalid_argument("platform must be windows, macos, or linux"));
        }
    }
    if let Some(size) = query.party_size {
        if size < 1 || size > 64 {
            return Err(invalid_argument("party_size must be between 1 and 64"));
        }
    }
    let demo_only = match query.demo_only {
        Some(wanted) => wanted,
        None => false,
    };
    Ok(CommunityFilters { release_state, demo_only, platform, party_size: query.party_size })
}

/// What a request asks for.
#[derive(Debug)]
pub struct CommunityPlan {
    pub sort: CommunitySort,
    pub limit: usize,
    pub filters: CommunityFilters,
}

pub open spec fn requested_limit(query: CommunityQuery) -> int {
    match query.limit {
        Some(limit) => limit as int,
        None => 20,
    }
}

/// What is wrong with a request for a page of the board.
pub open spec fn community_fault(query: CommunityQuery) -> Option<Seq<char>> {
    if community_sort(opt_view(query.sort)) is None {
        Some("sort must be trending or most_voted"@)
    } else if !(1 <= requested_limit(query) <= 100) {
        Some("limit must be between 1 and 100"@)
    } else {
        filter_fault(query)
    }
}

pub fn plan_community_request(query: &CommunityQuery) -> (r: Result<CommunityPlan, ApiError>)
    ensures
        match community_fault(*query) {
            Some(message) => refused(r, message),
            None => r matches Ok(plan) && Some(plan.sort) == community_sort(opt_view(query.sort))
                && plan.limit == requested_limit(*query) && filters_of(plan.filters, *query),
        },
{
    let sort = match &query.sort {
        None => CommunitySort::Trending,
        Some(name) => {
            if str_eq(name.as_str(), "trending") {
                CommunitySort::Trending
            } else if str_eq(name.as_str(), "most_voted") {
                CommunitySort::MostVoted
            } else {
                return Err(invalid_argument("sort must be trending or most_voted"));
            }
        },
    };
    let limit: i64 = match query.limit {
        Some(limit) => limit,
        None => 20,
    };
    if limit < 1 || limit > 100 {
        return Err(invalid_argument("limit must be between 1 and 100"));
    }
    match community_filters_from_query(query) {
        Ok(filters) => Ok(CommunityPlan { sort, limit: limit as usize, filters }),
        Err(e) => Err(e),
    }
}

/// The name of a set of filters, inside cursors and tags.
pub fn filter_key(signature: &str) -> (r: String)
    ensures
        r@ == hex(text_hash(signature@) as nat),
{
    u64_hex(hash64(signature))
}

// ---------------------------------------------------------------------------
// Cursors
// ---------------------------------------------------------------------------

pub open spec fn community_cursor_text(
    sort: CommunitySort,
    filter_key: Seq<char>,
    revision: nat,
    offset: nat,
) -> Seq<char> {
    "community:v1:"@ + sort.name() + ":"@ + filter_key + ":"@ + decimal(revision) + ":"@ + decimal(
        offset,
    )
}

pub fn encode_community_cursor(
    sort: CommunitySort,
    filter_key: &str,
    revision: u64,
    offset: usize,
) -> (r: String)
    ensures
        r@ == community_cursor_text(sort, filter_key@, revision as nat, offset as nat),
{
    let mut out = "community:v1:".to_owned();
    out.append(sort.as_str());
    out.append(":");
    out.append(filter_key);
    out.append(":");
    out.append(u64_decimal(revision).as_str());
    out.append(":");
    out.append(u64_decimal(offset as u64).as_str());
    out
}

/// The parts of a cursor for this sort and these filters.
pub open spec fn community_parts_valid(
    parts: Seq<Seq<char>>,
    sort: CommunitySort,
    filter_key: Seq<char>,
) -> bool {
    &&& parts.len() == 6
    &&& parts[0] == "community"@
    &&& parts[1] == "v1"@
    &&& parts[2] == sort.name()
    &&& parts[3] == filter_key
    &&& parsed_nat(parts[4], u64::MAX as nat) is Some
    &&& parsed_nat(parts[5], usize::MAX as nat) is Some
}

pub open spec fn decoded_community_cursor(
    cursor: Option<Seq<char>>,
    sort: CommunitySort,
    filter_key: Seq<char>,
    revision: nat,
) -> Result<nat, CursorError> {
    match cursor {
        None => Ok(0),
        Some(text) => {
            let parts = split_on(text, ':');
            if !community_parts_valid(parts, sort, filter_key) {
                Err(CursorError::Invalid)
            } else if parsed_nat(parts[4], u64::MAX as nat) != Some(revision) {
                Err(CursorError::Stale)
            } else {
                Ok(parsed_nat(parts[5], usize::MAX as nat)->0)
            }
        },
    }
}

pub fn decode_community_cursor(
    cursor: Option<&str>,
    expected_sort: CommunitySort,
    expected_filter_key: &str,
    expected_revision: u64,
) -> (r: Result<usize, CursorError>)
    ensures
        (match r {
            Ok(offset) => Ok::<nat, CursorError>(offset as nat),
            Err(e) => Err(e),
        }) == decoded_community_cursor(
            str_view(cursor),
            expected_sort,
            expected_filter_key@,
            expected_revision as nat,
        ),
{
    let text = match cursor {
        None => return Ok(0),
        Some(text) => text,
    };
    let parts = split(text, ':');
    assert forall|i: int| 0 <= i < parts@.len() implies split_on(text@, ':')[i] == (
    #[trigger] parts@[i])@ by {
        assert(views(parts@)[i] == parts@[i]@);
    }
    assert(parts@.len() == split_on(text@, ':').len()) by {
        assert(views(parts@).len() == parts@.len());
    }
    if parts.len() != 6 {
        return Err(CursorError::Invalid);
    }
    let revision = parse_u64(parts[4].as_str(), u64::MAX);
    let offset = parse_u64(parts[5].as_str(), usize::MAX as u64);
    match (revision, offset) {
        (Some(revision), Some(offset)) => {
            if !str_eq(parts[0].as_str(), "community") || !str_eq(parts[1].as_str(), "v1")
                || !str_eq(parts[2].as_str(), expected_sort.as_str()) || !str_eq(
                parts[3].as_str(),
                expected_filter_key,
            ) {
                return Err(CursorError::Invalid);
            }
            if revision != expected_revision {
                return Err(CursorError::Stale);
            }
            Ok(offset as usize)
        },
        _ => Err(CursorError::Invalid),
    }
}

/// A cursor is understood by the request for the next page of the same list as the offset
/// that it was made for, and is stale as soon as the votes have changed.
pub proof fn lemma_community_cursor_roundtrip(
    sort: CommunitySort,
    filter_key: Seq<char>,
    revision: nat,
    offset: nat,
    now_revision: nat,
)
    requires
        revision <= u64::MAX,
        offset <= usize::MAX,
        !filter_key.contains(':'),
    ensures
        decoded_community_cursor(
            Some(community_cursor_text(sort, filter_key, revision, offset)),
            sort,
            filter_key,
            now_revision,
        ) == (if revision == now_revision {
            Ok::<nat, CursorError>(offset)
        } else {
            Err(CursorError::Stale)
        }),
{
    reveal_strlit("community:v1:");
    reveal_strlit("community");
    reveal_strlit("v1");
    reveal_strlit(":");
    reveal_strlit("trending");
    reveal_strlit("most_voted");
    let rev = decimal(revision);
    let off = decimal(offset);
    let name = sort.name();
    lemma_decimal_roundtrip(revision, u64::MAX as nat);
    lemma_decimal_roundtrip(offset, usize::MAX as nat);
    assert(!rev.contains(':'));
    assert(!off.contains(':'));
    assert(!"community"@.contains(':'));
    assert(!"v1"@.contains(':'));
    assert(!name.contains(':'));
    let d = rev.push(':') + off;
    let c = filter_key.push(':') + d;
    let b = name.push(':') + c;
    let a = "v1"@.push(':') + b;
    let whole = "community"@.push(':') + a;
    assert(whole =~= community_cursor_text(sort, filter_key, revision, offset));
    lemma_split_single(off, ':');
    lemma_split_single(rev, ':');
    lemma_split_single(filter_key, ':');
    lemma_split_single(name, ':');
    lemma_split_single("v1"@, ':');
    lemma_split_single("community"@, ':');
    lemma_split_concat(rev, ':', off);
    lemma_split_concat(filter_key, ':', d);
    lemma_split_concat(name, ':', c);
    lemma_split_concat("v1"@, ':', b);
    lemma_split_concat("community"@, ':', a);
    assert(split_on(whole, ':') =~= seq!["community"@, "v1"@, name, filter_key, rev, off]);
}

/// Where the page of a request starts.
pub fn community_offset(
    cursor: Option<&str>,
    sort: CommunitySort,
    filter_key: &str,
    revision: u64,
) -> (r: Result<usize, ApiError>)
    ensures
        match decoded_community_cursor(str_view(cursor), sort, filter_key@, revision as nat) {
            Ok(offset) => r matches Ok(o) && o == offset,
            Err(CursorError::Invalid) => refused(r, "invalid community cursor"@),
            Err(CursorError::Stale) => r matches Err(e) && e.is(
                409,
                "cursor_stale"@,
                "community cursor snapshot is stale; restart pagination"@,
            ),
        },
{
    match decode_community_cursor(cursor, sort, filter_key, revision) {
        Ok(offset) => Ok(offset),
        Err(CursorError::Invalid) => Err(invalid_argument("invalid community cursor")),
        Err(CursorError::Stale) => Err(
            api_error(
                409,
                "cursor_stale",
                "community cursor snapshot is stale; restart pagination",
            ),
        ),
    }
}

// ---------------------------------------------------------------------------
// Answers
// ---------------------------------------------------------------------------

/// What the answer to a request for a page depends on.
#[derive(Debug)]
pub struct CommunityPage {
    pub sort: CommunitySort,
    pub limit: usize,
    pub offset: usize,
    /// The revision of the votes that the cursor was read against.
    pub revision: u64,
    /// The revision of the votes that the page was read from.
    pub page_revision: u64,
    pub has_more: bool,
}

pub open spec fn community_tag_text(
    page: CommunityPage,
    filter_key: Seq<char>,
    user_id: Option<Seq<char>>,
) -> Seq<char> {
    "community:v1:"@ + page.sort.name() + ":"@ + filter_key + ":"@ + decimal(
        page.page_revision as nat,
    ) + ":"@ + decimal(page.offset as nat) + ":"@ + decimal(page.limit as nat) + ":"@ + (
    match user_id {
        Some(user) => user,
        None => "public"@,
    })
}

/// The offset of the page behind this one.
pub open spec fn next_offset(page: CommunityPage) -> nat {
    if page.offset + page.limit <= usize::MAX {
        (page.offset + page.limit) as nat
    } else {
        usize::MAX as nat
    }
}

/// The tag of an answer, whether the client holds the answer already, and the cursor of the
/// next page, when there is one.
#[derive(Debug)]
pub struct CommunityAnswer {
    pub etag: String,
    pub not_modified: bool,
    pub next_cursor: Option<String>,
}

/// Votes that changed between reading the cursor and reading the page make the page useless.
pub fn answer_community_page(
    page: &CommunityPage,
    filter_key: &str,
    user_id: Option<&str>,
    if_none_match: Option<&str>,
) -> (r: Result<CommunityAnswer, ApiError>)
    ensures
        page.page_revision != page.revision ==> (r matches Err(e) && e.is(
            409,
            "cursor_stale"@,
            "community snapshot changed; restart pagination"@,
        )),
        page.page_revision == page.revision ==> {
            let tag = weak_etag_text(community_tag_text(*page, filter_key@, str_view(user_id)));
            r matches Ok(answer) && answer.etag@ == tag && answer.not_modified == (str_view(
                if_none_match,
            ) == Some(tag)) && opt_view(answer.next_cursor) == (if page.has_more {
                Some(
                    community_cursor_text(
                        page.sort,
                        filter_key@,
                        page.page_revision as nat,
                        next_offset(*page),
                    ),
                )
            } else {
                None
            })
        },
{
    if page.page_revision != page.revision {
        return Err(
            api_error(409, "cursor_stale", "community snapshot changed; restart pagination"),
        );
    }
    let next_cursor = if page.has_more {
        Some(
            encode_community_cursor(
                page.sort,
                filter_key,
                page.page_revision,
                page.offset.saturating_add(page.limit),
            ),
        )
    } else {
        None
    };
    let mut text = "community:v1:".to_owned();
    text.append(page.sort.as_str());
    text.append(":");
    text.append(filter_key);
    text.append(":");
    text.append(u64_decimal(page.page_revision).as_str());
    text.append(":");
    text.append(u64_decimal(page.offset as u64).as_str());
    text.append(":");
    text.append(u64_decimal(page.limit as u64).as_str());
    text.append(":");
    let who: &str = match user_id {
        Some(user) => user,
        None => "public",
    };
    text.append(who);
    let etag = weak_etag(text.as_str());
    let not_modified = if_none_match_ok(if_none_match, etag.as_str());
    Ok(CommunityAnswer { etag, not_modified, next_cursor })
}

/// A member who voted, as the store knows them.
#[derive(Debug)]
pub struct Voter {
    pub display_name: String,
    pub avatar_public_id: String,
    pub avatar_version: u32,
}

/// A member who voted, as everyone sees them.
#[derive(Debug)]
pub struct PublicVoter {
    pub display_name: String,
    pub avatar_url: String,
}

pub open spec fn shows_voter(shown: PublicVoter, voter: Voter) -> bool {
    &&& shown.display_name@ == voter.display_name@
    &&& shown.avatar_url@ == "/v1/avatars/"@ + voter.avatar_public_id@ + "?v="@ + decimal(
        voter.avatar_version as nat,
    )
}

pub open spec fn shows_voters(shown: Seq<PublicVoter>, voters: Seq<Voter>) -> bool {
    shown.len() == voters.len() && forall|i: int|
        0 <= i < shown.len() ==> shows_voter(#[trigger] shown[i], voters[i])
}

pub fn public_voters(voters: &Vec<Voter>) -> (r: Vec<PublicVoter>)
    ensures
        shows_voters(r@, voters@),
{
    let mut out: Vec<PublicVoter> = Vec::new();
    let mut i: usize = 0;
    while i < voters.len()
        invariant
            0 <= i <= voters@.len(),
            out@.len() == i,
            forall|j: int| 0 <= j < i ==> shows_voter(#[trigger] out@[j], voters@[j]),
        decreases voters@.len() - i,
    {
        out.push(
            PublicVoter {
                display_name: voters[i].display_name.clone(),
                avatar_url: avatar_url(
                    voters[i].avatar_public_id.as_str(),
                    voters[i].avatar_version,
                ),
            },
        );
        i = i + 1;
    }
    out
}

} // verus!
