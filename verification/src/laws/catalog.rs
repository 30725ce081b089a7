//! Games, their calendar and media, the community's votes, and pictures of people.

use vstd::prelude::*;

use crate::laws::requests::says;
use crate::numbers::decimal;
use crate::score::Score;
use crate::server::avatar::{
    avatar_cleanup, avatar_failure_answer, avatar_file_name, avatar_storage_key, check_stored_avatar,
    process_avatar_image, resolve_avatar_image_format, sniff_avatar_image_format,
    validate_avatar_dimensions, xml_escape, AvatarFailure, AvatarFormat,
};
use crate::server::catalog::{
    bootstrap_progress, calendar_cover_url, check_calendar_range, check_evidence_feature,
    check_game_summary, check_search, computed_evidence, evidence_confidence, game_media,
    has_early_data, latest_change, plan_bootstrap, plan_calendar, public_evidence,
    screenshot_positions, steam_url, summary_expires_at_ms, video_positions, BootstrapPlan,
    CalendarPlan, EvidenceRow, EvidenceSource, GameLookup, GameMedia, GameMediaAsset,
    PublicEvidence,
};
use crate::server::community::{
    answer_community_page, community_filters_from_query, community_offset, decode_community_cursor,
    encode_community_cursor, plan_community_request, public_voters, CommunityAnswer,
    CommunityFilters, CommunityPage, CommunityPlan, CommunityQuery, CommunitySort, PublicVoter,
    Voter,
};
use crate::server::config_files::{
    config_file_parts, https_status, normalize_public_base_url, public_base_url_status,
    ActiveServiceConfig, ConfigFault, ConfigFile, ConfigFileManager, ConfigStateResponse,
    ServiceConnectionFileResponse,
};
use crate::server::errors::ApiError;
use crate::server::feed_query::CursorError;
use crate::text::{byte_len, opt_view, to_ascii_lower, trimmed};

verus! {

// ---------------------------------------------------------------------------
// The calendar
// ---------------------------------------------------------------------------

/// The calendar looks sixty days ahead, or a hundred and eighty days back.
pub proof fn law_calendar_spans(state: Option<&str>, now_ms: i64, r: Result<CalendarPlan, ApiError>)
    requires
        call_ensures(plan_calendar, (state, now_ms), r),
        0 <= now_ms <= 0x7fff_0000_0000_0000,
    ensures
        r is Ok <==> state is None || state->0@ == "upcoming"@ || state->0@ == "recent"@,
        state is None || state->0@ == "upcoming"@ ==> r->Ok_0.state is Upcoming
            && r->Ok_0.default_from_ms == now_ms && r->Ok_0.default_to_ms == now_ms + 60 * 24 * 60
            * 60 * 1_000,
        state is Some && state->0@ == "recent"@ ==> r->Ok_0.state is Recent
            && r->Ok_0.default_to_ms == now_ms && r->Ok_0.default_from_ms == now_ms - 180 * 24 * 60
            * 60 * 1_000,
{
    reveal_strlit("upcoming");
    reveal_strlit("recent");
    assert("upcoming"@.len() == 8 && "recent"@.len() == 6);
}

/// A span of days is in order and no longer than a year.
pub proof fn law_calendar_ranges(from_day: Option<i64>, to_day: Option<i64>, r: Result<(), ApiError>)
    requires
        call_ensures(check_calendar_range, (from_day, to_day), r),
    ensures
        r is Ok <==> from_day is Some && to_day is Some && from_day->0 <= to_day->0 <= from_day->0
            + 366,
        r is Err ==> r->Err_0.status == 400,
{
}

/// Data are early below a hundred reviews.
pub proof fn law_early_data(review_total: Option<u32>, r: bool)
    requires
        call_ensures(has_early_data, (review_total,), r),
    ensures
        !r <==> review_total is Some && review_total->0 >= 100,
{
}

/// A game keeps its cover in the calendar, and has the store's where it has none.
pub proof fn law_calendar_covers(app_id: u32, cover_url: Option<String>, r: Option<String>)
    requires
        call_ensures(calendar_cover_url, (app_id, cover_url), r),
    ensures
        r is Some,
        cover_url is Some ==> r->0@ == cover_url->0@,
        cover_url is None ==> says(r->0@, decimal(app_id as nat)),
{
    assert(opt_view(r) is Some);
    if cover_url is None {
        let id = decimal(app_id as nat);
        let k = "https://cdn.akamai.steamstatic.com/steam/apps/"@.len() as int;
        assert(r->0@.subrange(k, k + id.len()) =~= id);
        assert(crate::laws::requests::says_at(r->0@, id, k));
    }
}

/// A search names something, and gives one to a hundred games, twenty where nothing is asked
/// for.
pub proof fn law_catalog_searches(q: Option<&str>, limit: Option<i64>, r: Result<i64, ApiError>)
    requires
        call_ensures(check_search, (q, limit), r),
    ensures
        r is Ok <==> q is Some && trimmed(q->0@).len() > 0 && (limit is None || 1 <= limit->0
            <= 100),
        r is Ok && limit is Some ==> r->Ok_0 == limit->0,
        r is Ok && limit is None ==> r->Ok_0 == 20,
{
}

/// The store's page of a game is that of the same game.
pub proof fn law_store_pages(app_id: u32, r: String)
    requires
        call_ensures(steam_url, (app_id,), r),
    ensures
        r@ == "https://store.steampowered.com/app/"@ + decimal(app_id as nat) + "/"@,
{
}

// ---------------------------------------------------------------------------
// Media
// ---------------------------------------------------------------------------

proof fn lemma_media(assets: Seq<GameMediaAsset>)
    requires
        assets.len() <= usize::MAX,
    ensures
        forall|i: int|
            0 <= i < assets.len() ==> (screenshot_positions(assets).contains(
                #[trigger] (i as usize),
            ) <==> assets[i].kind@ == "screenshot"@ && assets[i].full_url is Some),
        forall|i: int|
            0 <= i < assets.len() ==> (video_positions(assets).contains(#[trigger] (i as usize))
                <==> assets[i].kind@ == "movie"@),
        forall|k: int|
            0 <= k < screenshot_positions(assets).len() ==> (#[trigger] screenshot_positions(
                assets,
            )[k]) < assets.len(),
        forall|k: int|
            0 <= k < video_positions(assets).len() ==> (#[trigger] video_positions(assets)[k])
                < assets.len(),
    decreases assets.len(),
{
    if assets.len() > 0 {
        let front = assets.drop_last();
        lemma_media(front);
        let n = front.len() as int;
        let a = screenshot_positions(front);
        let b = screenshot_positions(assets);
        let c = video_positions(front);
        let d = video_positions(assets);
        assert forall|i: int| 0 <= i < assets.len() implies (b.contains(#[trigger] (i as usize))
            <==> assets[i].kind@ == "screenshot"@ && assets[i].full_url is Some) by {
            if i < n {
                assert(front[i] == assets[i]);
                if a.contains(i as usize) {
                    let k = choose|k: int| 0 <= k < a.len() && a[k] == i as usize;
                    assert(b[k] == i as usize);
                }
                if b.contains(i as usize) {
                    let k = choose|k: int| 0 <= k < b.len() && b[k] == i as usize;
                    assert(a[k] == i as usize);
                }
            } else {
                if crate::server::catalog::is_screenshot(assets[i]) {
                    assert(b[b.len() - 1] == i as usize);
                } else if b.contains(i as usize) {
                    let k = choose|k: int| 0 <= k < b.len() && b[k] == i as usize;
                    assert(a[k] == i as usize);
                }
            }
        }
        assert forall|i: int| 0 <= i < assets.len() implies (d.contains(#[trigger] (i as usize))
            <==> assets[i].kind@ == "movie"@) by {
            if i < n {
                assert(front[i] == assets[i]);
                if c.contains(i as usize) {
                    let k = choose|k: int| 0 <= k < c.len() && c[k] == i as usize;
                    assert(d[k] == i as usize);
                }
                if d.contains(i as usize) {
                    let k = choose|k: int| 0 <= k < d.len() && d[k] == i as usize;
                    assert(c[k] == i as usize);
                }
            } else {
                if crate::server::catalog::is_video(assets[i]) {
                    assert(d[d.len() - 1] == i as usize);
                } else if d.contains(i as usize) {
                    let k = choose|k: int| 0 <= k < d.len() && d[k] == i as usize;
                    assert(c[k] == i as usize);
                }
            }
        }
    }
}

proof fn lemma_latest(assets: Seq<GameMediaAsset>)
    ensures
        latest_change(assets) is Some <==> assets.len() > 0,
        forall|i: int|
            0 <= i < assets.len() ==> (#[trigger] assets[i]).updated_at_ms <= latest_change(
                assets,
            )->0,
    decreases assets.len(),
{
    if assets.len() > 0 {
        let front = assets.drop_last();
        lemma_latest(front);
        assert forall|i: int| 0 <= i < assets.len() implies (#[trigger] assets[i]).updated_at_ms
            <= latest_change(assets)->0 by {
            if i < front.len() {
                assert(front[i] == assets[i]);
            }
        }
    }
}

/// Pictures with an address are shown as pictures, films as films, and the time of the newest
/// change is that of none older.
pub proof fn law_media_are_shown_by_kind(assets: Vec<GameMediaAsset>, r: GameMedia, i: int)
    requires
        call_ensures(game_media, (&assets,), r),
        0 <= i < assets@.len() <= usize::MAX,
    ensures
        r.screenshots@.contains(i as usize) <==> assets@[i].kind@ == "screenshot"@
            && assets@[i].full_url is Some,
        r.videos@.contains(i as usize) <==> assets@[i].kind@ == "movie"@,
        r.updated_at_ms is Some && r.updated_at_ms->0 >= assets@[i].updated_at_ms,
{
    lemma_media(assets@);
    lemma_latest(assets@);
    let x = i as usize;
    assert(r.screenshots@.contains(x) <==> assets@[i].kind@ == "screenshot"@
        && assets@[i].full_url is Some);
    assert(r.videos@.contains(x) <==> assets@[i].kind@ == "movie"@);
}

/// What was computed is as sure as the profile, 0.4 where nothing is known of it; reviews are
/// sure by 0.9; what is stored says so itself.
pub proof fn law_evidence_is_so_sure(
    source: EvidenceSource,
    profile_confidence: Option<Score>,
    r: Option<Score>,
)
    requires
        call_ensures(evidence_confidence, (source, profile_confidence), r),
    ensures
        r is None <==> source is Stored,
        source is Computed && profile_confidence is Some ==> r == profile_confidence,
        source is Computed && profile_confidence is None ==> r->0.key == 0x3fd9_9999_9999_999a,
        source is Reviews ==> r->0.key == 0x3fec_cccc_cccc_cccd,
{
}

/// A feature that evidence is asked for is not blank and has at most sixty-four bytes.
pub proof fn law_features_are_short(feature: Option<&str>, r: Result<(), ApiError>)
    requires
        call_ensures(check_evidence_feature, (feature,), r),
    ensures
        r is Ok <==> feature is None || (trimmed(feature->0@).len() > 0 && byte_len(feature->0@)
            <= 64),
{
}

/// A summary is kept for a week, and is one of a known game.
pub proof fn law_summaries(
    now_ms: i64,
    app_id: u32,
    found: GameLookup,
    until: i64,
    r: Result<(), ApiError>,
)
    requires
        call_ensures(summary_expires_at_ms, (now_ms,), until),
        call_ensures(check_game_summary, (app_id, found), r),
        0 <= now_ms <= 0x7fff_0000_0000_0000,
    ensures
        until == now_ms + 7 * 24 * 60 * 60 * 1_000,
        r is Ok <==> app_id != 0 && found is Known,
        app_id == 0 ==> r->Err_0.status == 400,
        app_id != 0 && found is Unknown ==> r->Err_0.status == 404,
        app_id != 0 && found is StorageMissing ==> r->Err_0.status == 503,
        app_id != 0 && found is Failed ==> r->Err_0.status == 500,
{
}

/// A first filling aims at three hundred games, or at what is asked for within one and five
/// thousand, and goes by one of two modes.
pub proof fn law_first_filling(
    mode: Option<&str>,
    priority_target: Option<u32>,
    r: Result<BootstrapPlan, ApiError>,
)
    requires
        call_ensures(plan_bootstrap, (mode, priority_target), r),
    ensures
        r is Ok <==> mode is None || mode->0@ == "store_only"@ || mode->0@ == "normal"@,
        r is Ok && priority_target is None ==> r->Ok_0.priority_target == 300,
        r is Ok ==> 1 <= r->Ok_0.priority_target <= 5_000,
        r is Ok && priority_target is Some && 1 <= priority_target->0 <= 5_000
            ==> r->Ok_0.priority_target == priority_target->0,
        mode is None ==> r->Ok_0.store_only,
        mode is Some && mode->0@ == "normal"@ ==> !r->Ok_0.store_only,
{
    reveal_strlit("store_only");
    reveal_strlit("normal");
    assert("store_only"@.len() == 10 && "normal"@.len() == 6);
}

proof fn lemma_accepted(outcomes: Seq<bool>)
    ensures
        crate::server::catalog::accepted(outcomes) == outcomes.filter(|b: bool| b).len(),
    decreases outcomes.len(),
{
    reveal(Seq::filter);
    if outcomes.len() > 0 {
        lemma_accepted(outcomes.drop_last());
    }
}

/// What was taken and what is left to take make up the aim, until it is reached.
pub proof fn law_filling_progresses(outcomes: Vec<bool>, priority_target: u32, r: (u32, u32))
    requires
        call_ensures(bootstrap_progress, (&outcomes, priority_target), r),
        outcomes@.len() <= u32::MAX,
    ensures
        r.0 == outcomes@.filter(|b: bool| b).len(),
        r.0 <= priority_target ==> r.0 + r.1 == priority_target,
        r.0 > priority_target ==> r.1 == 0,
{
    lemma_accepted(outcomes@);
    lemma_filter_short(outcomes@);
}

proof fn lemma_filter_short(outcomes: Seq<bool>)
    ensures
        outcomes.filter(|b: bool| b).len() <= outcomes.len(),
    decreases outcomes.len(),
{
    reveal(Seq::filter);
    if outcomes.len() > 0 {
        lemma_filter_short(outcomes.drop_last());
    }
}

// ---------------------------------------------------------------------------
// The community
// ---------------------------------------------------------------------------

/// A list of the community goes by one of two orders, has one to a hundred games, twenty where
/// nothing is asked for, and is for a party from one to sixty-four.
pub proof fn law_community_plans(query: CommunityQuery, r: Result<CommunityPlan, ApiError>)
    requires
        call_ensures(plan_community_request, (&query,), r),
    ensures
        query.sort is Some && query.sort->0@ != "trending"@ && query.sort->0@ != "most_voted"@
            ==> r is Err,
        query.limit is Some && (query.limit->0 < 1 || query.limit->0 > 100) ==> r is Err,
        query.party_size is Some && (query.party_size->0 == 0 || query.party_size->0 > 64)
            ==> r is Err,
        r is Ok ==> {
            let plan = r->Ok_0;
            &&& plan.sort is MostVoted <==> query.sort is Some && query.sort->0@ == "most_voted"@
            &&& query.limit is Some ==> plan.limit == query.limit->0
            &&& query.limit is None ==> plan.limit == 20
            &&& plan.filters.demo_only <==> query.demo_only == Some(true)
            &&& plan.filters.party_size == query.party_size
        },
        query.sort is None && query.limit is None && query.release_state is None && query.platform
            is None && query.party_size is None ==> r is Ok,
        r is Err ==> r->Err_0.status == 400,
{
    reveal_strlit("trending");
    reveal_strlit("most_voted");
    assert("trending"@.len() == 8 && "most_voted"@.len() == 10);
}

/// A platform or a state of release that is filtered by is a known one, whatever its case.
pub proof fn law_community_filters(query: CommunityQuery, r: Result<CommunityFilters, ApiError>)
    requires
        call_ensures(community_filters_from_query, (&query,), r),
    ensures
        r is Ok && query.platform is Some && query.platform->0@.len() > 0 ==> {
            let name = to_ascii_lower(trimmed(query.platform->0@));
            (name == "windows"@ || name == "macos"@ || name == "linux"@) && opt_view(
                r->Ok_0.platform,
            ) == Some(name)
        },
        r is Ok && query.release_state is Some && query.release_state->0@.len() > 0 ==> {
            let name = to_ascii_lower(trimmed(query.release_state->0@));
            (name == "released"@ || name == "upcoming"@ || name == "coming_soon"@ || name
                == "retired"@ || name == "unknown"@) && opt_view(r->Ok_0.release_state) == Some(
                name,
            )
        },
        r is Ok && query.platform is None ==> r->Ok_0.platform is None,
        query.platform is None && query.release_state is None && query.party_size is None ==> r
            is Ok,
{
    if r is Ok && query.platform is None {
        assert(opt_view(r->Ok_0.platform) is None);
    }
}

/// A cursor leads back to its place while nothing has changed, and is stale afterwards.
pub proof fn law_community_cursors(
    sort: CommunitySort,
    filter_key: &str,
    revision: u64,
    offset: usize,
    now_revision: u64,
    cursor: String,
    given: &str,
    decoded: Result<usize, CursorError>,
    r: Result<usize, ApiError>,
)
    requires
        forall|i: int| 0 <= i < filter_key@.len() ==> (#[trigger] filter_key@[i]) != ':',
        call_ensures(encode_community_cursor, (sort, filter_key, revision, offset), cursor),
        given@ == cursor@,
        call_ensures(
            decode_community_cursor,
            (Some(given), sort, filter_key, now_revision),
            decoded,
        ),
        call_ensures(community_offset, (Some(given), sort, filter_key, now_revision), r),
    ensures
        revision == now_revision ==> decoded == Ok::<usize, CursorError>(offset) && r == Ok::<
            usize,
            ApiError,
        >(offset),
        revision != now_revision ==> decoded == Err::<usize, CursorError>(CursorError::Stale)
            && r->Err_0.status == 409,
{
    assert(!filter_key@.contains(':'));
    crate::server::community::lemma_community_cursor_roundtrip(
        sort,
        filter_key@,
        revision as nat,
        offset as nat,
        now_revision as nat,
    );
}

/// A page is answered only while nothing has changed since it was started; a reader that holds
/// its tag is told so, and there is a cursor exactly where there is more.
pub proof fn law_community_pages(
    page: CommunityPage,
    filter_key: &str,
    user_id: Option<&str>,
    if_none_match: Option<&str>,
    r: Result<CommunityAnswer, ApiError>,
)
    requires
        call_ensures(answer_community_page, (&page, filter_key, user_id, if_none_match), r),
    ensures
        r is Ok <==> page.page_revision == page.revision,
        r is Err ==> r->Err_0.status == 409,
        r is Ok ==> (r->Ok_0.next_cursor is Some <==> page.has_more),
        r is Ok && if_none_match is None ==> !r->Ok_0.not_modified,
        r is Ok && if_none_match is Some ==> (r->Ok_0.not_modified <==> if_none_match->0@
            == r->Ok_0.etag@),
{
    if r is Ok {
        assert(opt_view(r->Ok_0.next_cursor) is Some <==> r->Ok_0.next_cursor is Some);
    }
}

/// Voters are shown by name and picture, each in their place.
pub proof fn law_voters_are_shown(voters: Vec<Voter>, r: Vec<PublicVoter>, i: int)
    requires
        call_ensures(public_voters, (&voters,), r),
        0 <= i < voters@.len(),
    ensures
        r@.len() == voters@.len(),
        r@[i].display_name@ == voters@[i].display_name@,
        r@[i].avatar_url@ == "/v1/avatars/"@ + voters@[i].avatar_public_id@ + "?v="@ + decimal(
            voters@[i].avatar_version as nat,
        ),
{
    assert(crate::server::community::shows_voter(r@[i], voters@[i]));
}

// ---------------------------------------------------------------------------
// Pictures of people
// ---------------------------------------------------------------------------

/// A picture's format is known by its first bytes.
pub proof fn law_formats_are_sniffed(raw: &[u8], r: Option<AvatarFormat>)
    requires
        call_ensures(sniff_avatar_image_format, (raw,), r),
    ensures
        r == Some(AvatarFormat::Jpeg) <==> raw@.len() >= 3 && raw@[0] == 0xff && raw@[1] == 0xd8
            && raw@[2] == 0xff,
        r == Some(AvatarFormat::Png) ==> raw@.len() >= 8 && raw@[0] == 0x89 && raw@[1] == 0x50
            && raw@[2] == 0x4e && raw@[3] == 0x47,
        r == Some(AvatarFormat::WebP) ==> raw@.len() >= 12 && raw@[0] == 0x52 && raw@[1] == 0x49
            && raw@[8] == 0x57 && raw@[9] == 0x45 && raw@[10] == 0x42 && raw@[11] == 0x50,
        raw@.len() >= 12 && raw@.subrange(0, 4) == seq![0x52u8, 0x49, 0x46, 0x46] && raw@.subrange(
            8,
            12,
        ) == seq![0x57u8, 0x45, 0x42, 0x50] ==> r == Some(AvatarFormat::WebP),
        raw@.len() >= 8 && raw@.subrange(0, 8) == seq![
            0x89u8,
            0x50,
            0x4e,
            0x47,
            0x0d,
            0x0a,
            0x1a,
            0x0a,
        ] ==> r == Some(AvatarFormat::Png),
{
    let s = raw@;
    let jpeg = crate::server::avatar::jpeg_magic();
    let png = crate::server::avatar::png_magic();
    let riff = crate::server::avatar::riff_magic();
    let webp = crate::server::avatar::webp_magic();
    if s.len() >= 3 {
        let head = s.subrange(0, 3);
        assert(head[0] == s[0] && head[1] == s[1] && head[2] == s[2]);
        if s[0] == 0xff && s[1] == 0xd8 && s[2] == 0xff {
            assert(head =~= jpeg);
        }
        if crate::server::avatar::bytes_at(s, 0, jpeg) {
            assert(s.subrange(0int, 0int + jpeg.len()) =~= head);
            assert(jpeg[0] == 0xff && jpeg[1] == 0xd8 && jpeg[2] == 0xff);
        }
    }
    if s.len() >= 8 {
        let head = s.subrange(0, 8);
        assert(head[0] == s[0] && head[1] == s[1] && head[2] == s[2] && head[3] == s[3]);
        assert(png[0] == 0x89 && png[1] == 0x50 && png[2] == 0x4e && png[3] == 0x47);
        assert(s.subrange(0int, 0int + png.len()) =~= head);
    }
    if s.len() >= 12 {
        let a = s.subrange(0, 4);
        let b = s.subrange(8, 12);
        assert(a[0] == s[0] && a[1] == s[1]);
        assert(b[0] == s[8] && b[1] == s[9] && b[2] == s[10] && b[3] == s[11]);
        assert(s.subrange(0int, 0int + riff.len()) =~= a);
        assert(s.subrange(8int, 8int + webp.len()) =~= b);
        assert(riff[0] == 0x52 && riff[1] == 0x49);
        assert(webp[0] == 0x57 && webp[1] == 0x45 && webp[2] == 0x42 && webp[3] == 0x50);
    }
}

/// Without a word on its format the first bytes decide.
pub proof fn law_formats_without_a_word(
    raw: &[u8],
    sniffed: Option<AvatarFormat>,
    r: Result<AvatarFormat, String>,
)
    requires
        call_ensures(sniff_avatar_image_format, (raw,), sniffed),
        call_ensures(resolve_avatar_image_format, (raw, None::<&str>), r),
    ensures
        r is Ok <==> sniffed is Some,
        r is Ok ==> r->Ok_0 == sniffed->0,
{
}

/// A picture has pixels, no edge above sixteen thousand, and no more than sixteen million in all.
pub proof fn law_pictures_have_a_size(width: u32, height: u32, r: Result<(), String>)
    requires
        call_ensures(validate_avatar_dimensions, (width, height), r),
    ensures
        r is Ok <==> width != 0 && height != 0 && width <= 16_000 && height <= 16_000 && width
            * height <= 16_000_000,
{
}

/// Nothing and what is above two mebibytes is no picture; what is stored has at most a quarter
/// of one.
pub proof fn law_pictures_are_small(
    raw: &[u8],
    content_type: Option<&str>,
    size: usize,
    r: Result<Vec<u8>, String>,
    s: Result<(), String>,
)
    requires
        call_ensures(process_avatar_image, (raw, content_type), r),
        call_ensures(check_stored_avatar, (size,), s),
    ensures
        raw@.len() == 0 || raw@.len() > 2 * 1024 * 1024 ==> r is Err,
        s is Ok <==> size <= 256 * 1024,
{
}

/// The name of a stored picture holds nothing of an identifier but letters, digits, underscores
/// and hyphens.
pub proof fn law_picture_names_are_safe(user_id: &str, content_hash: &str, r: String, i: int)
    requires
        call_ensures(avatar_storage_key, (user_id, content_hash), r),
        0 <= i < user_id@.len(),
    ensures
        r@.len() == user_id@.len() + 1 + content_hash@.len() + 5,
        r@[i] != '/' && r@[i] != '.' && r@[i] != '\\',
        ('a' <= user_id@[i] && user_id@[i] <= 'z') || ('0' <= user_id@[i] && user_id@[i] <= '9')
            || user_id@[i] == '-' ==> r@[i] == user_id@[i],
        r@[user_id@.len() as int] == '_',
{
    reveal_strlit("_");
    reveal_strlit(".webp");
    assert(r@[i] == crate::server::avatar::safe_char(user_id@[i]));
}

/// A name that leaves its directory is not one of a stored picture.
pub proof fn law_picture_files_stay_inside(key: &str, r: Result<String, String>, i: int)
    requires
        call_ensures(avatar_file_name, (key,), r),
    ensures
        r is Ok ==> r->Ok_0@ == key@ && ".webp"@.is_suffix_of(key@) && byte_len(key@) <= 160,
        0 <= i < key@.len() && (key@[i] == '/' || key@[i] == '\\') ==> r is Err,
        key@.len() == 0 ==> r is Err,
{
    if r is Ok && 0 <= i < key@.len() {
        crate::server::avatar::lemma_storage_key_stays_inside(key@, i);
    }
}

/// After a picture was recorded the one before it is removed, and after it could not be, the new
/// one; never one that is still in use.
pub proof fn law_pictures_in_use_stay(
    previous: Option<&str>,
    stored: &str,
    recorded: bool,
    r: Option<String>,
)
    requires
        call_ensures(avatar_cleanup, (previous, stored, recorded), r),
    ensures
        recorded && r is Some ==> previous is Some && r->0@ == previous->0@ && r->0@ != stored@,
        recorded && previous is Some && previous->0@ != stored@ ==> r is Some,
        !recorded && r is Some ==> r->0@ == stored@ && (previous is Some ==> previous->0@
            != stored@),
        !recorded && (previous is None || previous->0@ != stored@) ==> r is Some,
{
}

/// Failures are answered by kind.
pub proof fn law_picture_failures(failure: AvatarFailure, r: ApiError)
    requires
        call_ensures(avatar_failure_answer, (&failure,), r),
    ensures
        failure is Rejected <==> r.status == 400,
        failure is Crashed <==> r.status == 500,
        failure is Busy || failure is NotStored <==> r.status == 503,
        failure matches AvatarFailure::Rejected(message) ==> r.message@ == message@,
{
}

/// Escaped text holds no markup.
pub proof fn law_escaped_text(value: &str, r: String, i: int)
    requires
        call_ensures(xml_escape, (value,), r),
        0 <= i < r@.len(),
    ensures
        r@[i] != '<' && r@[i] != '>' && r@[i] != '"' && r@[i] != '\'',
{
    crate::server::avatar::lemma_escaped_text_has_no_markup(value@, i);
}

// ---------------------------------------------------------------------------
// Configuration
// ---------------------------------------------------------------------------

/// What is pending waits for a restart, and a fault of either file is handed on.
pub proof fn law_pending_waits_for_a_restart(
    manager: ConfigFileManager,
    active_version: Result<String, ConfigFault>,
    pending_version: Result<Option<String>, ConfigFault>,
    r: Result<ConfigStateResponse, ConfigFault>,
)
    requires
        call_ensures(ConfigFileManager::state, (&manager, active_version, pending_version), r),
    ensures
        r is Ok <==> active_version is Ok && pending_version is Ok,
        r is Ok ==> (r->Ok_0.restart_required <==> pending_version->Ok_0 is Some),
        r is Ok ==> r->Ok_0.active_config_version@ == active_version->Ok_0@,
        active_version is Err ==> r == Err::<ConfigStateResponse, ConfigFault>(
            active_version->Err_0,
        ),
{
}

/// The file that tells others how to connect needs an address, and names it without slashes at
/// its end.
pub proof fn law_connection_files(
    manager: ConfigFileManager,
    active: ActiveServiceConfig,
    r: Result<ServiceConnectionFileResponse, ConfigFault>,
)
    requires
        active.service_connection is Some,
        call_ensures(
            ConfigFileManager::service_connection_file,
            (&manager, &active),
            r,
        ),
    ensures
        r is Ok,
        r->Ok_0.service_info_url@ == r->Ok_0.base_url@ + "/api/v1/service-info"@,
        r->Ok_0.service_name@ == active.service_identity.name@,
        r->Ok_0.service_instance_id@ == active.service_identity.instance_id@,
        r->Ok_0.base_url@.len() > 0 ==> r->Ok_0.base_url@.last() != '/',
{
    lemma_no_trailing(trimmed(active.service_connection->0.public_base_url@), '/');
}

proof fn lemma_no_trailing(s: Seq<char>, c: char)
    ensures
        crate::text::trim_end_char(s, c).len() > 0 ==> crate::text::trim_end_char(s, c).last() != c,
    decreases s.len(),
{
    if s.len() > 0 && s.last() == c {
        lemma_no_trailing(s.drop_last(), c);
    }
}

/// A normal address ends in no slash.
pub proof fn law_addresses_end_without_a_slash(value: &str, r: String)
    requires
        call_ensures(normalize_public_base_url, (value,), r),
    ensures
        r@.len() > 0 ==> r@.last() != '/',
{
    lemma_no_trailing(trimmed(value@), '/');
}

/// An address over TLS is in order, one without TLS only on this machine; none is configured
/// where it is blank.
pub proof fn law_addresses_are_judged(base_url: &str, status: String, r: String)
    requires
        call_ensures(public_base_url_status, (Some(base_url),), status),
        call_ensures(https_status, (Some(base_url),), r),
    ensures
        status@ == "configured"@ <==> trimmed(base_url@).len() > 0,
        "https://"@.is_prefix_of(to_ascii_lower(trimmed(base_url@))) <==> r@ == "ok"@,
        "http://localhost"@.is_prefix_of(to_ascii_lower(trimmed(base_url@))) ==> r@
            == "local_http_allowed"@,
        r@ == "public_http_rejected_by_clients"@ ==> "http://"@.is_prefix_of(
            to_ascii_lower(trimmed(base_url@)),
        ),
{
    let v = to_ascii_lower(trimmed(base_url@));
    reveal_strlit("configured");
    reveal_strlit("missing");
    reveal_strlit("https://");
    reveal_strlit("http://localhost");
    reveal_strlit("ok");
    reveal_strlit("local_http_allowed");
    reveal_strlit("public_http_rejected_by_clients");
    reveal_strlit("invalid_url");
    assert("configured"@.len() == 10 && "missing"@.len() == 7);
    assert("ok"@.len() == 2 && "local_http_allowed"@.len() == 18
        && "public_http_rejected_by_clients"@.len() == 31 && "invalid_url"@.len() == 11);
    if "https://"@.is_prefix_of(v) && "http://localhost"@.is_prefix_of(v) {
        assert(v[4] == "https://"@[4]);
        assert(v[4] == "http://localhost"@[4]);
    }
}

/// The files of a configuration: secrets apart from the rest, what is pending apart from what is
/// active.
pub proof fn law_files_are_apart(file: ConfigFile, r: (&'static str, &'static str))
    requires
        call_ensures(config_file_parts, (file,), r),
    ensures
        file is ActiveService ==> r.0@ == "active"@ && r.1@ == "service.toml"@,
        file is ActiveSecrets ==> r.0@ == "active"@ && r.1@ == "secrets.toml"@,
        file is PendingService ==> r.0@ == "pending"@ && r.1@ == "service.toml"@,
{
}

// ---------------------------------------------------------------------------
// Evidence that is shown
// ---------------------------------------------------------------------------

proof fn lemma_computed_shown(
    rows: Seq<EvidenceRow>,
    app_id: u32,
    known: Seq<bool>,
    wanted: Option<Seq<char>>,
    n: nat,
)
    ensures
        computed_evidence(rows, app_id, known, wanted, n).len() <= n,
        forall|k: int|
            0 <= k < computed_evidence(rows, app_id, known, wanted, n).len() ==> (
            #[trigger] computed_evidence(rows, app_id, known, wanted, n)[k]).source is Computed
                && (wanted is Some ==> computed_evidence(
                rows,
                app_id,
                known,
                wanted,
                n,
            )[k].feature == wanted->0),
    decreases n,
{
    if n > 0 {
        lemma_computed_shown(rows, app_id, known, wanted, (n - 1) as nat);
    }
}

/// What is stored is shown first, each row as its feature; the summary of reviews comes last,
/// where there is one and it is asked for or nothing in particular is; between them stand the
/// facts that were computed, of the feature that is asked for.
pub proof fn law_evidence_is_shown(
    app_id: u32,
    rows: Vec<EvidenceRow>,
    known: [bool; 6],
    has_reviews: bool,
    wanted: Option<&str>,
    r: Vec<PublicEvidence>,
    i: int,
)
    requires
        call_ensures(public_evidence, (app_id, &rows, &known, has_reviews, wanted), r),
    ensures
        rows@.len() <= r@.len() <= rows@.len() + 7,
        0 <= i < rows@.len() ==> r@[i].feature@ == rows@[i].feature_name@ && r@[i].source
            is Stored,
        has_reviews && (wanted is None || wanted->0@ == "review_summary"@) ==> r@.len()
            > rows@.len() && r@.last().source is Reviews && r@.last().evidence_id@ == "review:"@
            + decimal(app_id as nat) + ":summary"@,
        !has_reviews && 0 <= i < r@.len() ==> !(r@[i].source is Reviews),
        rows@.len() <= i < r@.len() && wanted is Some ==> r@[i].feature@ == wanted->0@,
{
    let list = crate::server::catalog::evidence_views(r@);
    let shown = match wanted {
        Some(text) => Some(text@),
        None => None,
    };
    lemma_computed_shown(rows@, app_id, known@, shown, 6);
    assert(list.len() == r@.len());
    assert forall|k: int| 0 <= k < r@.len() implies #[trigger] list[k]
        == crate::server::catalog::evidence_view(r@[k]) by {}
    if 0 <= i < r@.len() {
        assert(list[i] == crate::server::catalog::evidence_view(r@[i]));
    }
    if r@.len() > 0 {
        assert(list[r@.len() - 1] == crate::server::catalog::evidence_view(r@[r@.len() - 1]));
    }
}

} // verus!
