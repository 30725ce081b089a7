//! The catalog: calendar, search, game pages with their media and evidence, and the first
//! filling of an empty catalog.

use vstd::prelude::*;

use crate::hashing::{weak_etag, weak_etag_text};
use crate::numbers::{
    clamp_i64, decimal, i64_decimal, int_decimal, saturating_difference, saturating_sum, u64_decimal,
};
use crate::score::Score;
use crate::server::errors::{api_error, database_missing, invalid_argument, refused, ApiError};
use crate::server::ranking::{resolve_feed_cover_url, steam_cover};
use crate::text::{
    bool_str, bool_text, byte_len, is_blank, opt_view, str_byte_len, str_eq, str_view, trimmed,
};

verus! {

/// A day in milliseconds.
pub const DAY_MS: i64 = 86_400_000;

/// How far the upcoming calendar reaches by default.
pub const UPCOMING_CALENDAR_DAYS: i64 = 60;

/// How far the calendar of recent releases reaches back by default.
pub const RECENT_CALENDAR_DAYS: i64 = 180;

// ---------------------------------------------------------------------------
// Calendar
// ---------------------------------------------------------------------------

#[derive(Debug, Clone, Copy, PartialEq, Eq, Structural)]
pub enum CalendarState {
    Upcoming,
    Recent,
}

impl CalendarState {
    pub open spec fn name(self) -> Seq<char> {
        match self {
            CalendarState::Upcoming => "upcoming"@,
            CalendarState::Recent => "recent"@,
        }
    }

    pub fn as_str(self) -> (r: &'static str)
        ensures
            r@ == self.name(),
    {
        match self {
            CalendarState::Upcoming => "upcoming",
            CalendarState::Recent => "recent",
        }
    }
}

/// The calendar that a request asks for.
pub open spec fn calendar_named(name: Option<Seq<char>>) -> Option<CalendarState> {
    match name {
        None => Some(CalendarState::Upcoming),
        Some(n) => if n == "upcoming"@ {
            Some(CalendarState::Upcoming)
        } else if n == "recent"@ {
            Some(CalendarState::Recent)
        } else {
            None
        },
    }
}

/// The calendar of a request, and the times between which it looks when the request does
/// not say.
#[derive(Debug)]
pub struct CalendarPlan {
    pub state: CalendarState,
    pub default_from_ms: i64,
    pub default_to_ms: i64,
}

pub fn plan_calendar(state: Option<&str>, now_ms: i64) -> (r: Result<CalendarPlan, ApiError>)
    ensures
        match calendar_named(str_view(state)) {
            None => refused(r, "calendar state must be upcoming or recent"@),
            Some(CalendarState::Recent) => r matches Ok(plan) && plan.state is Recent
                && plan.default_from_ms == clamp_i64(now_ms - RECENT_CALENDAR_DAYS * DAY_MS)
                && plan.default_to_ms == now_ms,
            Some(CalendarState::Upcoming) => r matches Ok(plan) && plan.state is Upcoming
                && plan.default_from_ms == now_ms && plan.default_to_ms == clamp_i64(
                now_ms + UPCOMING_CALENDAR_DAYS * DAY_MS,
            ),
        },
{
    let state = match state {
        None => CalendarState::Upcoming,
        Some(name) => {
            if str_eq(name, "upcoming") {
                CalendarState::Upcoming
            } else if str_eq(name, "recent") {
                CalendarState::Recent
            } else {
                return Err(invalid_argument("calendar state must be upcoming or recent"));
            }
        },
    };
    match state {
        CalendarState::Recent => Ok(
            CalendarPlan {
                state,
                default_from_ms: saturating_difference(now_ms, RECENT_CALENDAR_DAYS * DAY_MS),
                default_to_ms: now_ms,
            },
        ),
        CalendarState::Upcoming => Ok(
            CalendarPlan {
                state,
                default_from_ms: now_ms,
                default_to_ms: saturating_sum(now_ms, UPCOMING_CALENDAR_DAYS * DAY_MS),
            },
        ),
    }
}

/// Accepts a range of days. A day is `None` where it was not written as one.
pub fn check_calendar_range(from_day: Option<i64>, to_day: Option<i64>) -> (r: Result<(), ApiError>)
    ensures
        from_day is None || to_day is None ==> refused(
            r,
            "calendar dates must use valid YYYY-MM-DD values"@,
        ),
        from_day is Some && to_day is Some ==> if from_day->0 <= to_day->0 && to_day->0
            - from_day->0 <= 366 {
            r is Ok
        } else {
            refused(r, "calendar range must be ordered and not exceed one year"@)
        },
{
    match (from_day, to_day) {
        (Some(from), Some(to)) => {
            if to < from || to as i128 - from as i128 > 366 {
                Err(invalid_argument("calendar range must be ordered and not exceed one year"))
            } else {
                Ok(())
            }
        },
        _ => Err(invalid_argument("calendar dates must use valid YYYY-MM-DD values")),
    }
}

pub fn calendar_etag(
    state: CalendarState,
    from: &str,
    to: &str,
    data_updated_at_ms: i64,
    build: &str,
) -> (r: String)
    ensures
        r@ == weak_etag_text(
            "calendar:v4:"@ + state.name() + ":"@ + from@ + ":"@ + to@ + ":"@ + int_decimal(
                data_updated_at_ms as int,
            ) + ":"@ + build@,
        ),
{
    let mut text = "calendar:v4:".to_owned();
    text.append(state.as_str());
    text.append(":");
    text.append(from);
    text.append(":");
    text.append(to);
    text.append(":");
    text.append(i64_decimal(data_updated_at_ms).as_str());
    text.append(":");
    text.append(build);
    weak_etag(text.as_str())
}

/// A game with few reviews is shown as one of which little is known yet.
pub fn has_early_data(review_total: Option<u32>) -> (r: bool)
    ensures
        r == (review_total is None || review_total->0 < 100),
{
    match review_total {
        Some(total) => total < 100,
        None => true,
    }
}

/// The cover of a calendar entry: its own, or the public one of the store.
pub fn calendar_cover_url(app_id: u32, cover_url: Option<String>) -> (r: Option<String>)
    ensures
        cover_url is Some ==> opt_view(r) == opt_view(cover_url),
        cover_url is None ==> opt_view(r) == Some(steam_cover(app_id)),
{
    match cover_url {
        Some(url) => Some(url),
        None => resolve_feed_cover_url(app_id, None),
    }
}

// ---------------------------------------------------------------------------
// Search and game pages
// ---------------------------------------------------------------------------

/// The limit of a search, when the search can be made.
pub fn check_search(q: Option<&str>, limit: Option<i64>) -> (r: Result<i64, ApiError>)
    ensures
        ({
            let wanted = match limit {
                Some(n) => n as int,
                None => 20,
            };
            if q is None || trimmed(q->0@).len() == 0 {
                refused(r, "q is required"@)
            } else if !(1 <= wanted <= 100) {
                refused(r, "limit must be between 1 and 100"@)
            } else {
                r matches Ok(n) && n == wanted
            }
        }),
{
    let blank = match q {
        Some(text) => is_blank(text),
        None => true,
    };
    if blank {
        return Err(invalid_argument("q is required"));
    }
    let limit: i64 = match limit {
        Some(n) => n,
        None => 20,
    };
    if limit < 1 || limit > 100 {
        return Err(invalid_argument("limit must be between 1 and 100"));
    }
    Ok(limit)
}

/// What the answer to a request for a game depends on.
#[derive(Debug)]
pub struct GameTag {
    pub app_id: u32,
    pub data_updated_at_ms: i64,
    pub media_updated_at_ms: i64,
    pub play_intent_revision: u64,
    pub play_intent_count: u32,
    pub voted: bool,
}

pub open spec fn game_tag_text(
    tag: GameTag,
    config_version: Seq<char>,
    user_id: Option<Seq<char>>,
) -> Seq<char> {
    "game:v4:"@ + decimal(tag.app_id as nat) + ":"@ + int_decimal(tag.data_updated_at_ms as int)
        + ":media"@ + int_decimal(tag.media_updated_at_ms as int) + ":"@ + config_version + ":pi"@
        + decimal(tag.play_intent_revision as nat) + ":"@ + decimal(tag.play_intent_count as nat)
        + ":"@ + bool_text(tag.voted) + ":user"@ + (match user_id {
        Some(user) => user,
        None => "public"@,
    })
}

pub fn game_etag(tag: &GameTag, config_version: &str, user_id: Option<&str>) -> (r: String)
    ensures
        r@ == weak_etag_text(game_tag_text(*tag, config_version@, str_view(user_id))),
{
    let mut text = "game:v4:".to_owned();
    text.append(u64_decimal(tag.app_id as u64).as_str());
    text.append(":");
    text.append(i64_decimal(tag.data_updated_at_ms).as_str());
    text.append(":media");
    text.append(i64_decimal(tag.media_updated_at_ms).as_str());
    text.append(":");
    text.append(config_version);
    text.append(":pi");
    text.append(u64_decimal(tag.play_intent_revision).as_str());
    text.append(":");
    text.append(u64_decimal(tag.play_intent_count as u64).as_str());
    text.append(":");
    text.append(bool_str(tag.voted));
    text.append(":user");
    let who: &str = match user_id {
        Some(user) => user,
        None => "public",
    };
    text.append(who);
    weak_etag(text.as_str())
}

pub fn steam_url(app_id: u32) -> (r: String)
    ensures
        r@ == "https://store.steampowered.com/app/"@ + decimal(app_id as nat) + "/"@,
{
    let mut out = "https://store.steampowered.com/app/".to_owned();
    out.append(u64_decimal(app_id as u64).as_str());
    out.append("/");
    out
}

/// A picture or a film of a game.
#[derive(Debug)]
pub struct GameMediaAsset {
    pub kind: String,
    pub source_id: String,
    pub title: Option<String>,
    pub thumbnail_url: Option<String>,
    pub full_url: Option<String>,
    pub is_highlight: bool,
    pub mp4_url: Option<String>,
    pub hls_h264_url: Option<String>,
    pub dash_h264_url: Option<String>,
    pub updated_at_ms: i64,
}

/// The media of a game page: which of the assets are shown, in their order, as screenshots
/// and as films, and when any of the assets last changed.
#[derive(Debug)]
pub struct GameMedia {
    pub updated_at_ms: Option<i64>,
    pub screenshots: Vec<usize>,
    pub videos: Vec<usize>,
}

/// A screenshot is shown only where it can be opened in full.
pub open spec fn is_screenshot(asset: GameMediaAsset) -> bool {
    asset.kind@ == "screenshot"@ && asset.full_url is Some
}

pub open spec fn is_video(asset: GameMediaAsset) -> bool {
    asset.kind@ == "movie"@
}

pub open spec fn screenshot_positions(assets: Seq<GameMediaAsset>) -> Seq<usize>
    decreases assets.len(),
{
    if assets.len() == 0 {
        Seq::empty()
    } else {
        let front = screenshot_positions(assets.drop_last());
        if is_screenshot(assets.last()) {
            front.push((assets.len() - 1) as usize)
        } else {
            front
        }
    }
}

pub open spec fn video_positions(assets: Seq<GameMediaAsset>) -> Seq<usize>
    decreases assets.len(),
{
    if assets.len() == 0 {
        Seq::empty()
    } else {
        let front = video_positions(assets.drop_last());
        if is_video(assets.last()) {
            front.push((assets.len() - 1) as usize)
        } else {
            front
        }
    }
}

/// The latest change of any asset.
pub open spec fn latest_change(assets: Seq<GameMediaAsset>) -> Option<int>
    decreases assets.len(),
{
    if assets.len() == 0 {
        None
    } else {
        let t = assets.last().updated_at_ms as int;
        match latest_change(assets.drop_last()) {
            Some(before) => if before >= t {
                Some(before)
            } else {
                Some(t)
            },
            None => Some(t),
        }
    }
}

pub fn game_media(assets: &Vec<GameMediaAsset>) -> (r: GameMedia)
    ensures
        r.screenshots@ == screenshot_positions(assets@),
        r.videos@ == video_positions(assets@),
        (match r.updated_at_ms {
            Some(t) => Some(t as int),
            None => None,
        }) == latest_change(assets@),
{
    let mut screenshots: Vec<usize> = Vec::new();
    let mut videos: Vec<usize> = Vec::new();
    let mut updated_at_ms: Option<i64> = None;
    let mut i: usize = 0;
    assert(assets@.take(0) =~= Seq::empty());
    while i < assets.len()
        invariant
            0 <= i <= assets@.len(),
            screenshots@ == screenshot_positions(assets@.take(i as int)),
            videos@ == video_positions(assets@.take(i as int)),
            (match updated_at_ms {
                Some(t) => Some(t as int),
                None => None,
            }) == latest_change(assets@.take(i as int)),
        decreases assets@.len() - i,
    {
        proof {
            assert(assets@.take(i + 1).drop_last() =~= assets@.take(i as int));
            assert(assets@.take(i + 1).last() == assets@[i as int]);
        }
        let t: i64 = assets[i].updated_at_ms;
        updated_at_ms = match updated_at_ms {
            Some(before) => if before >= t {
                Some(before)
            } else {
                Some(t)
            },
            None => Some(t),
        };
        if str_eq(assets[i].kind.as_str(), "screenshot") {
            proof {
                reveal_strlit("screenshot");
                reveal_strlit("movie");
                assert("screenshot"@.len() != "movie"@.len());
            }
            if assets[i].full_url.is_some() {
                screenshots.push(i);
            }
        } else if str_eq(assets[i].kind.as_str(), "movie") {
            videos.push(i);
        }
        i = i + 1;
    }
    assert(assets@.take(assets@.len() as int) =~= assets@);
    GameMedia { updated_at_ms, screenshots, videos }
}

// ---------------------------------------------------------------------------
// Evidence
// ---------------------------------------------------------------------------

/// A stored piece of evidence for a feature of a game.
#[derive(Debug)]
pub struct EvidenceRow {
    pub evidence_id: i64,
    pub feature_name: String,
}

/// Where the rest of a shown piece of evidence comes from.
#[derive(Debug, Clone, Copy, PartialEq, Eq, Structural)]
pub enum EvidenceSource {
    /// The stored row at this position.
    Stored(usize),
    /// The computed feature at this position of [`computed_feature`].
    Computed(usize),
    /// The latest summary of the reviews.
    Reviews,
}

#[derive(Debug)]
pub struct PublicEvidence {
    pub evidence_id: String,
    pub feature: String,
    pub source: EvidenceSource,
}

/// The shown piece, as a value.
pub ghost struct EvidenceView {
    pub evidence_id: Seq<char>,
    pub feature: Seq<char>,
    pub source: EvidenceSource,
}

pub open spec fn evidence_view(e: PublicEvidence) -> EvidenceView {
    EvidenceView { evidence_id: e.evidence_id@, feature: e.feature@, source: e.source }
}

pub open spec fn evidence_views(list: Seq<PublicEvidence>) -> Seq<EvidenceView> {
    list.map_values(|e: PublicEvidence| evidence_view(e))
}

/// The features that can be told from a game's profile when nothing is stored for them.
pub open spec fn computed_feature(k: int) -> Seq<char> {
    if k == 0 {
        "private_session"@
    } else if k == 1 {
        "self_hosted_server"@
    } else if k == 2 {
        "online_coop"@
    } else if k == 3 {
        "matchmaking_core"@
    } else if k == 4 {
        "public_world_dependency"@
    } else {
        "service_shutdown_risk"@
    }
}

fn computed_feature_name(k: usize) -> (r: &'static str)
    requires
        k < 6,
    ensures
        r@ == computed_feature(k as int),
{
    if k == 0 {
        "private_session"
    } else if k == 1 {
        "self_hosted_server"
    } else if k == 2 {
        "online_coop"
    } else if k == 3 {
        "matchmaking_core"
    } else if k == 4 {
        "public_world_dependency"
    } else {
        "service_shutdown_risk"
    }
}

/// The identifier under which a feature's evidence is cited.
pub open spec fn feature_evidence_id(feature: Seq<char>, app_id: u32) -> Seq<char> {
    "feature:"@ + feature + ":"@ + decimal(app_id as nat)
}

pub open spec fn review_evidence_id(app_id: u32) -> Seq<char> {
    "review:"@ + decimal(app_id as nat) + ":summary"@
}

fn feature_id(feature: &str, app_id: u32) -> (r: String)
    ensures
        r@ == feature_evidence_id(feature@, app_id),
{
    let mut out = "feature:".to_owned();
    out.append(feature);
    out.append(":");
    out.append(u64_decimal(app_id as u64).as_str());
    out
}

/// Some row before position `i` is about this feature.
pub open spec fn feature_before(rows: Seq<EvidenceRow>, feature: Seq<char>, i: int) -> bool {
    exists|j: int| 0 <= j < i && (#[trigger] rows[j]).feature_name@ == feature
}

/// The first row of a feature is the one that is cited; further ones are told apart by
/// their own number.
pub open spec fn stored_evidence(rows: Seq<EvidenceRow>, app_id: u32, i: int) -> EvidenceView {
    let feature = rows[i].feature_name@;
    EvidenceView {
        evidence_id: if feature_before(rows, feature, i) {
            feature_evidence_id(feature, app_id) + ":"@ + int_decimal(rows[i].evidence_id as int)
        } else {
            feature_evidence_id(feature, app_id)
        },
        feature,
        source: EvidenceSource::Stored(i as usize),
    }
}

pub open spec fn requested(wanted: Option<Seq<char>>, feature: Seq<char>) -> bool {
    wanted is None || wanted->0 == feature
}

/// The computed feature `k` is shown: it was asked for, it is known, and nothing is stored
/// for it.
pub open spec fn shows_computed(
    rows: Seq<EvidenceRow>,
    known: Seq<bool>,
    wanted: Option<Seq<char>>,
    k: int,
) -> bool {
    requested(wanted, computed_feature(k)) && !feature_before(
        rows,
        computed_feature(k),
        rows.len() as int,
    ) && known[k]
}

pub open spec fn computed_evidence(
    rows: Seq<EvidenceRow>,
    app_id: u32,
    known: Seq<bool>,
    wanted: Option<Seq<char>>,
    n: nat,
) -> Seq<EvidenceView>
    decreases n,
{
    if n == 0 {
        Seq::empty()
    } else {
        let front = computed_evidence(rows, app_id, known, wanted, (n - 1) as nat);
        let k = n - 1;
        if shows_computed(rows, known, wanted, k) {
            front.push(
                EvidenceView {
                    evidence_id: feature_evidence_id(computed_feature(k), app_id),
                    feature: computed_feature(k),
                    source: EvidenceSource::Computed(k as usize),
                },
            )
        } else {
            front
        }
    }
}

/// All the evidence of a game that a request sees: what is stored, then what can be
/// computed, then the reviews.
pub open spec fn shown_evidence(
    rows: Seq<EvidenceRow>,
    app_id: u32,
    known: Seq<bool>,
    has_reviews: bool,
    wanted: Option<Seq<char>>,
) -> Seq<EvidenceView> {
    Seq::new(rows.len(), |i: int| stored_evidence(rows, app_id, i)) + computed_evidence(
        rows,
        app_id,
        known,
        wanted,
        6,
    ) + (if has_reviews && requested(wanted, "review_summary"@) {
        seq![
            EvidenceView {
                evidence_id: review_evidence_id(app_id),
                feature: "review_summary"@,
                source: EvidenceSource::Reviews,
            },
        ]
    } else {
        Seq::empty()
    })
}

fn has_feature_before(rows: &Vec<EvidenceRow>, feature: &str, upto: usize) -> (r: bool)
    requires
        upto <= rows@.len(),
    ensures
        r == feature_before(rows@, feature@, upto as int),
{
    let mut j: usize = 0;
    while j < upto
        invariant
            0 <= j <= upto <= rows@.len(),
            !feature_before(rows@, feature@, j as int),
        decreases upto - j,
    {
        if str_eq(rows[j].feature_name.as_str(), feature) {
            return true;
        }
        j = j + 1;
    }
    false
}

fn is_requested(wanted: Option<&str>, feature: &str) -> (r: bool)
    ensures
        r == requested(str_view(wanted), feature@),
{
    match wanted {
        Some(name) => str_eq(name, feature),
        None => true,
    }
}

/// The type and the label of where evidence comes from. Stored evidence brings its own.
pub open spec fn origin_of(source: EvidenceSource) -> Option<(Seq<char>, Seq<char>)> {
    match source {
        EvidenceSource::Stored(_) => None,
        EvidenceSource::Computed(_) => Some(
            ("computed_profile"@, "normalized multiplayer profile"@),
        ),
        EvidenceSource::Reviews => Some(("steam_reviews"@, "latest normalized review summary"@)),
    }
}

pub fn evidence_origin(source: EvidenceSource) -> (r: Option<(&'static str, &'static str)>)
    ensures
        (match r {
            Some(origin) => Some((origin.0@, origin.1@)),
            None => None,
        }) == origin_of(source),
{
    match source {
        EvidenceSource::Stored(_) => None,
        EvidenceSource::Computed(_) => Some(
            ("computed_profile", "normalized multiplayer profile"),
        ),
        EvidenceSource::Reviews => Some(("steam_reviews", "latest normalized review summary")),
    }
}

/// The key of `0.4`, the confidence in what is computed from a profile that gives none.
pub const PROFILE_CONFIDENCE_KEY: i64 = 0x3fd9_9999_9999_999a;

/// The key of `0.9`, the confidence in reviews.
pub const REVIEW_CONFIDENCE_KEY: i64 = 0x3fec_cccc_cccc_cccd;

/// How far evidence is trusted. Stored evidence brings its own confidence.
pub fn evidence_confidence(source: EvidenceSource, profile_confidence: Option<Score>) -> (r: Option<
    Score,
>)
    ensures
        r == (match source {
            EvidenceSource::Stored(_) => None,
            EvidenceSource::Computed(_) => Some(
                match profile_confidence {
                    Some(score) => score,
                    None => Score { key: PROFILE_CONFIDENCE_KEY },
                },
            ),
            EvidenceSource::Reviews => Some(Score { key: REVIEW_CONFIDENCE_KEY }),
        }),
{
    match source {
        EvidenceSource::Stored(_) => None,
        EvidenceSource::Computed(_) => match profile_confidence {
            Some(score) => Some(score),
            None => Some(Score { key: PROFILE_CONFIDENCE_KEY }),
        },
        EvidenceSource::Reviews => Some(Score { key: REVIEW_CONFIDENCE_KEY }),
    }
}

/// A feature that evidence is asked for has a name.
pub fn check_evidence_feature(feature: Option<&str>) -> (r: Result<(), ApiError>)
    ensures
        feature is Some && (trimmed(feature->0@).len() == 0 || byte_len(feature->0@) > 64)
            ==> refused(r, "feature must contain between 1 and 64 bytes"@),
        feature is None || (trimmed(feature->0@).len() > 0 && byte_len(feature->0@) <= 64)
            ==> r is Ok,
{
    match feature {
        Some(name) => {
            if is_blank(name) || str_byte_len(name) > 64 {
                Err(invalid_argument("feature must contain between 1 and 64 bytes"))
            } else {
                Ok(())
            }
        },
        None => Ok(()),
    }
}

/// The evidence that a request sees. `known` tells of each computed feature whether the
/// game's profile has a value for it.
pub fn public_evidence(
    app_id: u32,
    rows: &Vec<EvidenceRow>,
    known: &[bool; 6],
    has_reviews: bool,
    wanted: Option<&str>,
) -> (r: Vec<PublicEvidence>)
    ensures
        evidence_views(r@) == shown_evidence(
            rows@,
            app_id,
            known@,
            has_reviews,
            str_view(wanted),
        ),
{
    let mut out: Vec<PublicEvidence> = Vec::new();
    let mut i: usize = 0;
    while i < rows.len()
        invariant
            0 <= i <= rows@.len(),
            evidence_views(out@) == Seq::new(
                i as nat,
                |j: int| stored_evidence(rows@, app_id, j),
            ),
        decreases rows@.len() - i,
    {
        let feature = rows[i].feature_name.as_str();
        let mut evidence_id = feature_id(feature, app_id);
        if has_feature_before(rows, feature, i) {
            evidence_id.append(":");
            evidence_id.append(i64_decimal(rows[i].evidence_id).as_str());
        }
        let shown = PublicEvidence {
            evidence_id,
            feature: feature.to_owned(),
            source: EvidenceSource::Stored(i),
        };
        proof {
            assert(evidence_view(shown) == stored_evidence(rows@, app_id, i as int));
            assert(evidence_views(out@.push(shown)) =~= evidence_views(out@).push(
                evidence_view(shown),
            ));
            assert(Seq::new((i + 1) as nat, |j: int| stored_evidence(rows@, app_id, j))
                =~= Seq::new(i as nat, |j: int| stored_evidence(rows@, app_id, j)).push(
                stored_evidence(rows@, app_id, i as int),
            ));
        }
        out.push(shown);
        i = i + 1;
    }
    let ghost stored = Seq::new(rows@.len(), |j: int| stored_evidence(rows@, app_id, j));
    let mut k: usize = 0;
    assert(evidence_views(out@) =~= stored + computed_evidence(
        rows@,
        app_id,
        known@,
        str_view(wanted),
        0,
    ));
    while k < 6
        invariant
            0 <= k <= 6,
            evidence_views(out@) == stored + computed_evidence(
                rows@,
                app_id,
                known@,
                str_view(wanted),
                k as nat,
            ),
        decreases 6 - k,
    {
        let feature = computed_feature_name(k);
        if is_requested(wanted, feature) && !has_feature_before(rows, feature, rows.len())
            && known[k] {
            let shown = PublicEvidence {
                evidence_id: feature_id(feature, app_id),
                feature: feature.to_owned(),
                source: EvidenceSource::Computed(k),
            };
            proof {
                let before = computed_evidence(rows@, app_id, known@, str_view(wanted), k as nat);
                assert(evidence_views(out@.push(shown)) =~= evidence_views(out@).push(
                    evidence_view(shown),
                ));
                assert((stored + before).push(evidence_view(shown)) =~= stored + before.push(
                    evidence_view(shown),
                ));
            }
            out.push(shown);
        }
        k = k + 1;
    }
    if has_reviews && is_requested(wanted, "review_summary") {
        let mut evidence_id = "review:".to_owned();
        evidence_id.append(u64_decimal(app_id as u64).as_str());
        evidence_id.append(":summary");
        let shown = PublicEvidence {
            evidence_id,
            feature: "review_summary".to_owned(),
            source: EvidenceSource::Reviews,
        };
        proof {
            assert(evidence_views(out@.push(shown)) =~= evidence_views(out@).push(
                evidence_view(shown),
            ));
            assert(evidence_views(out@).push(evidence_view(shown)) =~= shown_evidence(
                rows@,
                app_id,
                known@,
                has_reviews,
                str_view(wanted),
            ));
        }
        out.push(shown);
    } else {
        assert(evidence_views(out@) =~= shown_evidence(
            rows@,
            app_id,
            known@,
            has_reviews,
            str_view(wanted),
        ));
    }
    out
}

/// Whatever is cited about a feature can be looked up: for each feature that has stored
/// evidence, one piece is shown under the identifier that citations use.
pub proof fn lemma_cited_evidence_is_shown(
    rows: Seq<EvidenceRow>,
    app_id: u32,
    known: Seq<bool>,
    has_reviews: bool,
    wanted: Option<Seq<char>>,
    i: int,
) -> (j: int)
    requires
        0 <= i < rows.len(),
    ensures
        0 <= j <= i,
        shown_evidence(rows, app_id, known, has_reviews, wanted)[j].evidence_id
            == feature_evidence_id(rows[i].feature_name@, app_id),
        shown_evidence(rows, app_id, known, has_reviews, wanted)[j].feature
            == rows[i].feature_name@,
    decreases i,
{
    let feature = rows[i].feature_name@;
    let all = shown_evidence(rows, app_id, known, has_reviews, wanted);
    if feature_before(rows, feature, i) {
        let k = choose|k: int| 0 <= k < i && (#[trigger] rows[k]).feature_name@ == feature;
        lemma_cited_evidence_is_shown(rows, app_id, known, has_reviews, wanted, k)
    } else {
        assert(all[i] == stored_evidence(rows, app_id, i));
        i
    }
}

// ---------------------------------------------------------------------------
// Summaries and the first filling
// ---------------------------------------------------------------------------

/// How long a summary made by rule is kept.
pub const SUMMARY_TTL_MS: i64 = 604_800_000;

pub fn summary_expires_at_ms(now_ms: i64) -> (r: i64)
    ensures
        r == clamp_i64(now_ms + SUMMARY_TTL_MS),
{
    saturating_sum(now_ms, SUMMARY_TTL_MS)
}

/// What a summary made by rule was made from.
pub fn summary_input_hash(app_id: u32) -> (r: String)
    ensures
        r@ == "rule:"@ + decimal(app_id as nat),
{
    let mut out = "rule:".to_owned();
    out.append(u64_decimal(app_id as u64).as_str());
    out
}

/// A summary is asked for one game. `found` tells what the store says of it: the game is
/// there, is not there, or could not be read.
#[derive(Debug, Clone, Copy, PartialEq, Eq, Structural)]
pub enum GameLookup {
    StorageMissing,
    Failed,
    Unknown,
    Known,
}

pub fn check_game_summary(app_id: u32, found: GameLookup) -> (r: Result<(), ApiError>)
    ensures
        app_id == 0 ==> refused(r, "app_id must be positive"@),
        app_id > 0 ==> match found {
            GameLookup::StorageMissing => r matches Err(e) && e.is(
                503,
                "storage_unavailable"@,
                "database is not configured"@,
            ),
            GameLookup::Failed => r matches Err(e) && e.is(
                500,
                "internal_error"@,
                "failed to load game"@,
            ),
            GameLookup::Unknown => r matches Err(e) && e.is(404, "not_found"@, "game not found"@),
            GameLookup::Known => r is Ok,
        },
{
    if app_id == 0 {
        return Err(invalid_argument("app_id must be positive"));
    }
    match found {
        GameLookup::StorageMissing => Err(database_missing()),
        GameLookup::Failed => Err(api_error(500, "internal_error", "failed to load game")),
        GameLookup::Unknown => Err(api_error(404, "not_found", "game not found")),
        GameLookup::Known => Ok(()),
    }
}

/// How an empty catalog is filled for the first time.
#[derive(Debug)]
pub struct BootstrapPlan {
    pub store_only: bool,
    pub priority_target: u32,
}

pub open spec fn clamp_target(target: u32) -> int {
    if target < 1 {
        1
    } else if target > 5_000 {
        5_000
    } else {
        target as int
    }
}

pub fn plan_bootstrap(mode: Option<&str>, priority_target: Option<u32>) -> (r: Result<
    BootstrapPlan,
    ApiError,
>)
    ensures
        ({
            let name = match mode {
                Some(m) => m@,
                None => "store_only"@,
            };
            if name != "store_only"@ && name != "normal"@ {
                refused(r, "mode must be store_only or normal"@)
            } else {
                r matches Ok(plan) && plan.store_only == (name == "store_only"@)
                    && plan.priority_target == (match priority_target {
                    Some(target) => clamp_target(target),
                    None => 300,
                })
            }
        }),
{
    let name: &str = match mode {
        Some(m) => m,
        None => "store_only",
    };
    let store_only = str_eq(name, "store_only");
    if !store_only && !str_eq(name, "normal") {
        return Err(invalid_argument("mode must be store_only or normal"));
    }
    let priority_target: u32 = match priority_target {
        Some(target) => {
            if target < 1 {
                1
            } else if target > 5_000 {
                5_000
            } else {
                target
            }
        },
        None => 300,
    };
    Ok(BootstrapPlan { store_only, priority_target })
}

/// The name under which a game is looked up that has none yet.
pub fn bootstrap_name(app_id: u32, name: &Option<String>) -> (r: String)
    ensures
        r@ == (match name {
            Some(n) => n@,
            None => "app-"@ + decimal(app_id as nat),
        }),
{
    match name {
        Some(n) => n.clone(),
        None => {
            let mut out = "app-".to_owned();
            out.append(u64_decimal(app_id as u64).as_str());
            out
        },
    }
}

/// How many of the look-ups were accepted: one outcome for each target.
pub open spec fn accepted(outcomes: Seq<bool>) -> nat
    decreases outcomes.len(),
{
    if outcomes.len() == 0 {
        0
    } else {
        accepted(outcomes.drop_last()) + (if outcomes.last() {
            1nat
        } else {
            0
        })
    }
}

pub open spec fn u32_at_most(n: nat) -> u32 {
    if n <= u32::MAX {
        n as u32
    } else {
        u32::MAX
    }
}

/// How many look-ups were accepted, and how many of the target are left.
pub fn bootstrap_progress(outcomes: &Vec<bool>, priority_target: u32) -> (r: (u32, u32))
    ensures
        r.0 == u32_at_most(accepted(outcomes@)),
        r.1 == (if r.0 >= priority_target {
            0
        } else {
            priority_target - r.0
        }),
{
    let mut enqueued: u32 = 0;
    let mut i: usize = 0;
    assert(outcomes@.take(0) =~= Seq::empty());
    while i < outcomes.len()
        invariant
            0 <= i <= outcomes@.len(),
            enqueued == u32_at_most(accepted(outcomes@.take(i as int))),
        decreases outcomes@.len() - i,
    {
        proof {
            assert(outcomes@.take(i + 1).drop_last() =~= outcomes@.take(i as int));
        }
        if outcomes[i] {
            enqueued = enqueued.saturating_add(1);
        }
        i = i + 1;
    }
    assert(outcomes@.take(outcomes@.len() as int) =~= outcomes@);
    (enqueued, priority_target.saturating_sub(enqueued))
}

} // verus!
