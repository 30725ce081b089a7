//! What a natural language request asks for, as far as rules can tell.

use vstd::prelude::*;

use crate::score::Score;
use crate::server::feed_query::{FeedQuery, FeedSection, NATURAL_LANGUAGE_RECALL_LIMIT};
use crate::text::{
    clone_opt, clone_strings, join, join2, joined, list_contains, occurs_in, opt_view, str_contains, str_eq, trim, trimmed,
    views,
};

verus! {

/// `0.1`: plays together rather than against each other.
pub const COOPERATIVE_KEY: i64 = 0x3fb9_9999_9999_999a;

/// `0.85`: plays to win.
pub const COMPETITIVE_KEY: i64 = 0x3feb_3333_3333_3333;

/// `1.0`: wants to host.
pub const WILLING_KEY: i64 = 0x3ff0_0000_0000_0000;

/// What was understood of a request, and which of it the ranking can honour.
#[derive(Debug)]
pub struct NaturalLanguageInterpretation {
    pub party_size: Option<u8>,
    pub session_minutes_max: Option<u32>,
    pub coop_competitive: Option<Score>,
    pub self_hosting_willingness: Option<Score>,
    pub platforms: Vec<String>,
    pub demo_only: bool,
    pub selected_section: Option<FeedSection>,
    pub selected_section_explicit: bool,
    pub max_price_minor: Option<i64>,
    pub currency: Option<String>,
    pub modes_preferred: Vec<String>,
    pub modes_excluded: Vec<String>,
    pub hard_constraints: Vec<String>,
    pub applied_constraints: Vec<String>,
    pub unapplied_constraints: Vec<String>,
    pub intent_confidence: Option<Score>,
}

// ---------------------------------------------------------------------------
// Words
// ---------------------------------------------------------------------------

/// The text in lower case.
pub uninterp spec fn lowercase_of(text: Seq<char>) -> Seq<char>;

/// `str::to_lowercase`: the lower case of every character, by the Unicode tables.
#[verifier::external_body]
fn to_lowercase(text: &str) -> (r: String)
    ensures
        r@ == lowercase_of(text@),
{
    text.to_lowercase()
}

/// The views of borrowed texts.
pub open spec fn words(list: Seq<&str>) -> Seq<Seq<char>> {
    list.map_values(|w: &str| w@)
}

/// One of the needles is in the haystack.
pub open spec fn mentions_any(haystack: Seq<char>, needles: Seq<Seq<char>>) -> bool {
    exists|i: int| 0 <= i < needles.len() && occurs_in(haystack, #[trigger] needles[i])
}

pub fn contains_any(haystack: &str, needles: &[&str]) -> (r: bool)
    ensures
        r == mentions_any(haystack@, words(needles@)),
{
    let mut i: usize = 0;
    while i < needles.len()
        invariant
            0 <= i <= needles@.len(),
            forall|j: int| 0 <= j < i ==> !occurs_in(haystack@, #[trigger] words(needles@)[j]),
        decreases needles@.len() - i,
    {
        assert(words(needles@)[i as int] == needles@[i as int]@);
        if str_contains(haystack, needles[i]) {
            return true;
        }
        i = i + 1;
    }
    false
}

/// The normalised fields of a list of entries.
pub open spec fn entries(list: Seq<(&str, u32)>) -> Seq<(Seq<char>, u32)> {
    list.map_values(|e: (&str, u32)| (e.0@, e.1))
}

/// `token` directly followed by one of the suffixes.
pub open spec fn counts_with(text: Seq<char>, token: Seq<char>, suffixes: Seq<Seq<char>>) -> bool {
    exists|i: int| 0 <= i < suffixes.len() && occurs_in(text, token + #[trigger] suffixes[i])
}

/// The value of the first token that the text counts with.
pub open spec fn first_value(
    text: Seq<char>,
    tokens: Seq<(Seq<char>, u32)>,
    suffixes: Seq<Seq<char>>,
) -> Option<u32>
    decreases tokens.len(),
{
    if tokens.len() == 0 {
        None
    } else if counts_with(text, tokens[0].0, suffixes) {
        Some(tokens[0].1)
    } else {
        first_value(text, tokens.drop_first(), suffixes)
    }
}

fn first_mention(text: &str, tokens: &[(&str, u32)], suffixes: &[&str]) -> (r: Option<u32>)
    ensures
        r == first_value(text@, entries(tokens@), words(suffixes@)),
{
    let mut i: usize = 0;
    assert(entries(tokens@).skip(0) =~= entries(tokens@));
    while i < tokens.len()
        invariant
            0 <= i <= tokens@.len(),
            first_value(text@, entries(tokens@), words(suffixes@)) == first_value(
                text@,
                entries(tokens@).skip(i as int),
                words(suffixes@),
            ),
        decreases tokens@.len() - i,
    {
        let (token, value): (&str, u32) = tokens[i];
        proof {
            assert(entries(tokens@).skip(i as int)[0] == (token@, value));
            assert(entries(tokens@).skip(i as int).drop_first() =~= entries(tokens@).skip(i + 1));
        }
        let mut k: usize = 0;
        while k < suffixes.len()
            invariant
                0 <= k <= suffixes@.len(),
                i < tokens@.len(),
                entries(tokens@).skip(i as int)[0] == (token@, value),
                entries(tokens@).skip(i as int).len() > 0,
                first_value(text@, entries(tokens@), words(suffixes@)) == first_value(
                    text@,
                    entries(tokens@).skip(i as int),
                    words(suffixes@),
                ),
                forall|j: int|
                    0 <= j < k ==> !occurs_in(text@, token@ + #[trigger] words(suffixes@)[j]),
            decreases suffixes@.len() - k,
        {
            let pattern = join2(token, suffixes[k]);
            assert(words(suffixes@)[k as int] == suffixes@[k as int]@);
            if str_contains(text, pattern.as_str()) {
                return Some(value);
            }
            k = k + 1;
        }
        assert(!counts_with(text@, token@, words(suffixes@)));
        i = i + 1;
    }
    None
}

/// Numerals for the members of a party.
pub open spec fn party_numerals() -> Seq<(Seq<char>, u32)> {
    seq![
        ("1"@, 1u32),
        ("一"@, 1u32),
        ("2"@, 2u32),
        ("二"@, 2u32),
        ("3"@, 3u32),
        ("三"@, 3u32),
        ("4"@, 4u32),
        ("四"@, 4u32),
        ("5"@, 5u32),
        ("五"@, 5u32),
        ("6"@, 6u32),
        ("六"@, 6u32),
        ("7"@, 7u32),
        ("七"@, 7u32),
        ("8"@, 8u32),
        ("八"@, 8u32),
    ]
}

pub open spec fn party_words() -> Seq<(Seq<char>, u32)> {
    seq![
        ("one"@, 1u32),
        ("two"@, 2u32),
        ("three"@, 3u32),
        ("four"@, 4u32),
        ("five"@, 5u32),
        ("six"@, 6u32),
        ("seven"@, 7u32),
        ("eight"@, 8u32),
    ]
}

/// The number of players that a (lower case) request names: numerals before words,
/// smaller numbers before larger ones.
pub open spec fn party_size_of(text: Seq<char>) -> Option<u32> {
    match first_value(
        text,
        party_numerals(),
        seq!["个人"@, " 人"@, "人"@, " people"@, " players"@],
    ) {
        Some(n) => Some(n),
        None => first_value(text, party_words(), seq![" people"@, " players"@]),
    }
}

proof fn lemma_first_value_listed(
    text: Seq<char>,
    tokens: Seq<(Seq<char>, u32)>,
    suffixes: Seq<Seq<char>>,
)
    ensures
        first_value(text, tokens, suffixes) matches Some(v) ==> exists|i: int|
            0 <= i < tokens.len() && (#[trigger] tokens[i]).1 == v,
    decreases tokens.len(),
{
    if tokens.len() > 0 && !counts_with(text, tokens[0].0, suffixes) {
        lemma_first_value_listed(text, tokens.drop_first(), suffixes);
        if first_value(text, tokens, suffixes) is Some {
            let v = first_value(text, tokens, suffixes)->0;
            let i = choose|i: int|
                0 <= i < tokens.drop_first().len() && (#[trigger] tokens.drop_first()[i]).1 == v;
            assert(tokens[i + 1].1 == v);
        }
    }
}

/// A party size that was read from a request is between one and eight.
pub proof fn lemma_party_size_range(text: Seq<char>)
    ensures
        party_size_of(text) matches Some(n) ==> 1 <= n <= 8,
{
    lemma_first_value_listed(
        text,
        party_numerals(),
        seq!["个人"@, " 人"@, "人"@, " people"@, " players"@],
    );
    lemma_first_value_listed(text, party_words(), seq![" people"@, " players"@]);
}

pub fn extract_party_size(query: &str) -> (r: Option<u8>)
    ensures
        r == (match party_size_of(query@) {
            Some(n) => Some(n as u8),
            None => None,
        }),
        r matches Some(n) ==> 1 <= n <= 8,
{
    let numerals: [(&str, u32); 16] = [
        ("1", 1),
        ("一", 1),
        ("2", 2),
        ("二", 2),
        ("3", 3),
        ("三", 3),
        ("4", 4),
        ("四", 4),
        ("5", 5),
        ("五", 5),
        ("6", 6),
        ("六", 6),
        ("7", 7),
        ("七", 7),
        ("8", 8),
        ("八", 8),
    ];
    let counters: [&str; 5] = ["个人", " 人", "人", " people", " players"];
    let spelled: [(&str, u32); 8] = [
        ("one", 1),
        ("two", 2),
        ("three", 3),
        ("four", 4),
        ("five", 5),
        ("six", 6),
        ("seven", 7),
        ("eight", 8),
    ];
    let english: [&str; 2] = [" people", " players"];
    proof {
        assert(entries(numerals@) =~= party_numerals());
        assert(words(counters@) =~= seq!["个人"@, " 人"@, "人"@, " people"@, " players"@]);
        assert(entries(spelled@) =~= party_words());
        assert(words(english@) =~= seq![" people"@, " players"@]);
        lemma_party_size_range(query@);
    }
    match first_mention(query, &numerals, &counters) {
        Some(n) => Some(n as u8),
        None => match first_mention(query, &spelled, &english) {
            Some(n) => Some(n as u8),
            None => None,
        },
    }
}

pub open spec fn hour_numerals() -> Seq<(Seq<char>, u32)> {
    seq![
        ("1"@, 60u32),
        ("一"@, 60u32),
        ("2"@, 120u32),
        ("二"@, 120u32),
        ("3"@, 180u32),
        ("三"@, 180u32),
        ("4"@, 240u32),
        ("四"@, 240u32),
    ]
}

pub open spec fn hour_words() -> Seq<(Seq<char>, u32)> {
    seq![("one"@, 60u32), ("two"@, 120u32), ("three"@, 180u32), ("four"@, 240u32)]
}

pub open spec fn minute_numerals() -> Seq<(Seq<char>, u32)> {
    seq![
        ("15"@, 15u32),
        ("20"@, 20u32),
        ("30"@, 30u32),
        ("45"@, 45u32),
        ("60"@, 60u32),
        ("90"@, 90u32),
        ("120"@, 120u32),
        ("180"@, 180u32),
        ("240"@, 240u32),
    ]
}

/// The length of a session that a (lower case) request names, in minutes: hours before
/// minutes.
pub open spec fn session_minutes_of(text: Seq<char>) -> Option<u32> {
    match first_value(text, hour_numerals(), seq!["小时"@, " 小时"@, " hour"@]) {
        Some(n) => Some(n),
        None => match first_value(text, hour_words(), seq![" hour"@, " hours"@]) {
            Some(n) => Some(n),
            None => first_value(text, minute_numerals(), seq!["分钟"@, " 分钟"@, " min"@]),
        },
    }
}

pub fn extract_session_minutes(query: &str) -> (r: Option<u32>)
    ensures
        r == session_minutes_of(query@),
{
    let hours: [(&str, u32); 8] = [
        ("1", 60),
        ("一", 60),
        ("2", 120),
        ("二", 120),
        ("3", 180),
        ("三", 180),
        ("4", 240),
        ("四", 240),
    ];
    let hour_units: [&str; 3] = ["小时", " 小时", " hour"];
    let spelled: [(&str, u32); 4] = [("one", 60), ("two", 120), ("three", 180), ("four", 240)];
    let english: [&str; 2] = [" hour", " hours"];
    let minutes: [(&str, u32); 9] = [
        ("15", 15),
        ("20", 20),
        ("30", 30),
        ("45", 45),
        ("60", 60),
        ("90", 90),
        ("120", 120),
        ("180", 180),
        ("240", 240),
    ];
    let minute_units: [&str; 3] = ["分钟", " 分钟", " min"];
    proof {
        assert(entries(hours@) =~= hour_numerals());
        assert(words(hour_units@) =~= seq!["小时"@, " 小时"@, " hour"@]);
        assert(entries(spelled@) =~= hour_words());
        assert(words(english@) =~= seq![" hour"@, " hours"@]);
        assert(entries(minutes@) =~= minute_numerals());
        assert(words(minute_units@) =~= seq!["分钟"@, " 分钟"@, " min"@]);
    }
    match first_mention(query, &hours, &hour_units) {
        Some(n) => Some(n),
        None => match first_mention(query, &spelled, &english) {
            Some(n) => Some(n),
            None => first_mention(query, &minutes, &minute_units),
        },
    }
}

// ---------------------------------------------------------------------------
// Interpretation
// ---------------------------------------------------------------------------

pub open spec fn says_casual(text: Seq<char>) -> bool {
    mentions_any(
        text,
        seq![
            "不要太卷"@,
            "不太卷"@,
            "不要太竞技"@,
            "不竞技"@,
            "休闲"@,
            "轻松"@,
            "合作"@,
            "coop"@,
            "casual"@,
        ],
    )
}

pub open spec fn says_competitive(text: Seq<char>) -> bool {
    mentions_any(text, seq!["竞技"@, "排位"@, "competitive"@, "ranked"@])
}

pub open spec fn says_self_hosted(text: Seq<char>) -> bool {
    mentions_any(
        text,
        seq!["自建服"@, "自建服务器"@, "专用服务器"@, "self-host"@, "dedicated server"@],
    )
}

pub open spec fn says_macos(text: Seq<char>) -> bool {
    mentions_any(text, seq!["macos"@, "mac os"@, "mac版"@, "mac 版"@])
}

pub open spec fn says_demo(text: Seq<char>) -> bool {
    mentions_any(text, seq!["demo"@, "试玩"@, "playtest"@, "测试版"@])
}

/// A demo is asked for of games that are not out yet.
pub open spec fn says_upcoming(text: Seq<char>) -> bool {
    mentions_any(text, seq!["即将"@, "未发售"@, "coming soon"@]) || says_demo(text)
}

pub open spec fn says_classic(text: Seq<char>) -> bool {
    mentions_any(text, seq!["经典"@, "老游戏"@, "反复刷"@, "耐玩"@, "replayable"@])
}

pub open spec fn says_popular(text: Seq<char>) -> bool {
    mentions_any(text, seq!["热门"@, "人多"@, "popular"@])
}

pub open spec fn says_coop_mode(text: Seq<char>) -> bool {
    mentions_any(text, seq!["合作"@, "coop"@, "co-op"@, "co op"@])
}

pub open spec fn says_no_pvp(text: Seq<char>) -> bool {
    mentions_any(
        text,
        seq![
            "不要pvp"@,
            "不要 pvp"@,
            "不玩pvp"@,
            "不玩 pvp"@,
            "排除竞技"@,
            "拒绝竞技"@,
            "no pvp"@,
        ],
    )
}

/// The list with one more entry, if the condition holds.
pub open spec fn push_if(list: Seq<Seq<char>>, condition: bool, entry: Seq<char>) -> Seq<
    Seq<char>,
> {
    if condition {
        list.push(entry)
    } else {
        list
    }
}

pub open spec fn section_of(text: Seq<char>) -> Option<FeedSection> {
    if says_upcoming(text) {
        Some(FeedSection::Upcoming)
    } else if says_classic(text) {
        Some(FeedSection::ClassicLegacy)
    } else if says_popular(text) {
        Some(FeedSection::PopularLegacy)
    } else {
        None
    }
}

/// Casual wins over competitive.
pub open spec fn temper_of(text: Seq<char>) -> Option<Score> {
    if says_casual(text) {
        Some(Score { key: COOPERATIVE_KEY })
    } else if says_competitive(text) {
        Some(Score { key: COMPETITIVE_KEY })
    } else {
        None
    }
}

pub open spec fn platforms_of(text: Seq<char>) -> Seq<Seq<char>> {
    push_if(
        push_if(
            push_if(Seq::empty(), occurs_in(text, "windows"@), "windows"@),
            says_macos(text),
            "macos"@,
        ),
        occurs_in(text, "linux"@),
        "linux"@,
    )
}

pub open spec fn modes_of(text: Seq<char>) -> Seq<Seq<char>> {
    push_if(
        push_if(
            push_if(Seq::empty(), says_coop_mode(text), "private_coop"@),
            says_competitive(text) && !says_casual(text),
            "matchmade_pvp"@,
        ),
        says_self_hosted(text),
        "self_hosted"@,
    )
}

pub open spec fn hard_of(text: Seq<char>) -> Seq<Seq<char>> {
    push_if(
        push_if(
            push_if(
                push_if(
                    push_if(
                        push_if(Seq::empty(), party_size_of(text) is Some, "party_size"@),
                        session_minutes_of(text) is Some,
                        "session_minutes"@,
                    ),
                    platforms_of(text).len() > 0,
                    "platforms"@,
                ),
                says_demo(text),
                "demo_required"@,
            ),
            says_self_hosted(text),
            "self_hosting"@,
        ),
        says_no_pvp(text),
        "modes_excluded"@,
    )
}

/// `r` is what the rules read out of a lower case text.
pub open spec fn reads(r: NaturalLanguageInterpretation, text: Seq<char>) -> bool {
    &&& r.party_size == (match party_size_of(text) {
        Some(n) => Some(n as u8),
        None => None,
    })
    &&& r.session_minutes_max == session_minutes_of(text)
    &&& r.coop_competitive == temper_of(text)
    &&& r.self_hosting_willingness == (if says_self_hosted(text) {
        Some(Score { key: WILLING_KEY })
    } else {
        None
    })
    &&& views(r.platforms@) == platforms_of(text)
    &&& r.demo_only == says_demo(text)
    &&& r.selected_section == section_of(text)
    &&& r.selected_section_explicit == section_of(text) is Some
    &&& r.max_price_minor is None
    &&& r.currency is None
    &&& views(r.modes_preferred@) == modes_of(text)
    &&& views(r.modes_excluded@) == push_if(Seq::empty(), says_no_pvp(text), "matchmade_pvp"@)
    &&& views(r.hard_constraints@) == hard_of(text)
    &&& r.applied_constraints@.len() == 0
    &&& r.unapplied_constraints@.len() == 0
    &&& r.intent_confidence is None
}

/// Appends `entry` where the condition holds.
fn push_when(list: &mut Vec<String>, condition: bool, entry: &str)
    ensures
        views(final(list)@) == push_if(views(old(list)@), condition, entry@),
{
    if condition {
        let text = entry.to_owned();
        proof {
            assert(views(list@.push(text)) =~= views(list@).push(text@));
        }
        list.push(text);
    }
}

/// Reads a request that is already in lower case.
pub fn interpret_lowercase(normalized: &str) -> (r: NaturalLanguageInterpretation)
    ensures
        reads(r, normalized@),
{
    let party_size = extract_party_size(normalized);
    let session_minutes_max = extract_session_minutes(normalized);
    let casual_words: [&str; 9] = [
        "不要太卷",
        "不太卷",
        "不要太竞技",
        "不竞技",
        "休闲",
        "轻松",
        "合作",
        "coop",
        "casual",
    ];
    let competitive_words: [&str; 4] = ["竞技", "排位", "competitive", "ranked"];
    let hosting_words: [&str; 5] = [
        "自建服",
        "自建服务器",
        "专用服务器",
        "self-host",
        "dedicated server",
    ];
    let mac_words: [&str; 4] = ["macos", "mac os", "mac版", "mac 版"];
    let demo_words: [&str; 4] = ["demo", "试玩", "playtest", "测试版"];
    let upcoming_words: [&str; 3] = ["即将", "未发售", "coming soon"];
    let classic_words: [&str; 5] = ["经典", "老游戏", "反复刷", "耐玩", "replayable"];
    let popular_words: [&str; 3] = ["热门", "人多", "popular"];
    let coop_words: [&str; 4] = ["合作", "coop", "co-op", "co op"];
    let no_pvp_words: [&str; 7] = [
        "不要pvp",
        "不要 pvp",
        "不玩pvp",
        "不玩 pvp",
        "排除竞技",
        "拒绝竞技",
        "no pvp",
    ];
    proof {
        assert(words(casual_words@) =~= seq![
            "不要太卷"@,
            "不太卷"@,
            "不要太竞技"@,
            "不竞技"@,
            "休闲"@,
            "轻松"@,
            "合作"@,
            "coop"@,
            "casual"@,
        ]);
        assert(words(competitive_words@) =~= seq!["竞技"@, "排位"@, "competitive"@, "ranked"@]);
        assert(words(hosting_words@) =~= seq![
            "自建服"@,
            "自建服务器"@,
            "专用服务器"@,
            "self-host"@,
            "dedicated server"@,
        ]);
        assert(words(mac_words@) =~= seq!["macos"@, "mac os"@, "mac版"@, "mac 版"@]);
        assert(words(demo_words@) =~= seq!["demo"@, "试玩"@, "playtest"@, "测试版"@]);
        assert(words(upcoming_words@) =~= seq!["即将"@, "未发售"@, "coming soon"@]);
        assert(words(classic_words@) =~= seq![
            "经典"@,
            "老游戏"@,
            "反复刷"@,
            "耐玩"@,
            "replayable"@,
        ]);
        assert(words(popular_words@) =~= seq!["热门"@, "人多"@, "popular"@]);
        assert(words(coop_words@) =~= seq!["合作"@, "coop"@, "co-op"@, "co op"@]);
        assert(words(no_pvp_words@) =~= seq![
            "不要pvp"@,
            "不要 pvp"@,
            "不玩pvp"@,
            "不玩 pvp"@,
            "排除竞技"@,
            "拒绝竞技"@,
            "no pvp"@,
        ]);
    }
    let casual = contains_any(normalized, &casual_words);
    let competitive = contains_any(normalized, &competitive_words);
    let coop_competitive = if casual {
        Some(Score { key: COOPERATIVE_KEY })
    } else if competitive {
        Some(Score { key: COMPETITIVE_KEY })
    } else {
        None
    };
    let self_hosted = contains_any(normalized, &hosting_words);
    let self_hosting_willingness = if self_hosted {
        Some(Score { key: WILLING_KEY })
    } else {
        None
    };
    let mut platforms: Vec<String> = Vec::new();
    assert(views(platforms@) =~= Seq::empty());
    push_when(&mut platforms, str_contains(normalized, "windows"), "windows");
    push_when(&mut platforms, contains_any(normalized, &mac_words), "macos");
    push_when(&mut platforms, str_contains(normalized, "linux"), "linux");
    let demo_only = contains_any(normalized, &demo_words);
    let upcoming = contains_any(normalized, &upcoming_words) || demo_only;
    let classic = contains_any(normalized, &classic_words);
    let popular = contains_any(normalized, &popular_words);
    let selected_section = if upcoming {
        Some(FeedSection::Upcoming)
    } else if classic {
        Some(FeedSection::ClassicLegacy)
    } else if popular {
        Some(FeedSection::PopularLegacy)
    } else {
        None
    };
    let mut modes_preferred: Vec<String> = Vec::new();
    assert(views(modes_preferred@) =~= Seq::empty());
    push_when(&mut modes_preferred, contains_any(normalized, &coop_words), "private_coop");
    push_when(&mut modes_preferred, competitive && !casual, "matchmade_pvp");
    push_when(&mut modes_preferred, self_hosted, "self_hosted");
    let no_pvp = contains_any(normalized, &no_pvp_words);
    let mut modes_excluded: Vec<String> = Vec::new();
    assert(views(modes_excluded@) =~= Seq::empty());
    push_when(&mut modes_excluded, no_pvp, "matchmade_pvp");
    let mut hard_constraints: Vec<String> = Vec::new();
    assert(views(hard_constraints@) =~= Seq::empty());
    assert(views(platforms@).len() == platforms@.len());
    push_when(&mut hard_constraints, party_size.is_some(), "party_size");
    push_when(&mut hard_constraints, session_minutes_max.is_some(), "session_minutes");
    push_when(&mut hard_constraints, platforms.len() > 0, "platforms");
    push_when(&mut hard_constraints, demo_only, "demo_required");
    push_when(&mut hard_constraints, self_hosted, "self_hosting");
    push_when(&mut hard_constraints, no_pvp, "modes_excluded");
    NaturalLanguageInterpretation {
        party_size,
        session_minutes_max,
        coop_competitive,
        self_hosting_willingness,
        platforms,
        demo_only,
        selected_section,
        selected_section_explicit: upcoming || classic || popular,
        max_price_minor: None,
        currency: None,
        modes_preferred,
        modes_excluded,
        hard_constraints,
        applied_constraints: Vec::new(),
        unapplied_constraints: Vec::new(),
        intent_confidence: None,
    }
}

/// Reads a request.
pub fn interpret_natural_language(query: &str) -> (r: NaturalLanguageInterpretation)
    ensures
        reads(r, lowercase_of(query@)),
{
    let normalized = to_lowercase(query);
    interpret_lowercase(normalized.as_str())
}

/// A request that names no section is not pinned to one: it is recalled from all.
pub proof fn lemma_generic_request_is_not_pinned(r: NaturalLanguageInterpretation, text: Seq<char>)
    requires
        reads(r, text),
    ensures
        r.selected_section_explicit <==> r.selected_section is Some,
        r.demo_only ==> r.selected_section == Some(FeedSection::Upcoming),
        !says_upcoming(text) && !says_classic(text) && !says_popular(text)
            ==> r.selected_section is None,
{
}

// ---------------------------------------------------------------------------
// Lists of constraints
// ---------------------------------------------------------------------------

/// The list with the field in it, once.
pub open spec fn with_field(list: Seq<Seq<char>>, field: Seq<char>) -> Seq<Seq<char>> {
    if list.contains(field) {
        list
    } else {
        list.push(field)
    }
}

/// The list with the field in it, once, if the condition holds.
pub open spec fn with_field_if(list: Seq<Seq<char>>, condition: bool, field: Seq<char>) -> Seq<
    Seq<char>,
> {
    if condition {
        with_field(list, field)
    } else {
        list
    }
}

pub fn push_hard(list: &mut Vec<String>, field: &str)
    ensures
        views(final(list)@) == with_field(views(old(list)@), field@),
{
    if !list_contains(list, field) {
        let text = field.to_owned();
        proof {
            assert(views(list@.push(text)) =~= views(list@).push(text@));
        }
        list.push(text);
    }
}

fn push_hard_when(list: &mut Vec<String>, condition: bool, field: &str)
    ensures
        views(final(list)@) == with_field_if(views(old(list)@), condition, field@),
{
    if condition {
        push_hard(list, field);
    }
}

/// Adding fields this way never makes a list name one twice.
pub proof fn lemma_with_field_distinct(list: Seq<Seq<char>>, field: Seq<char>)
    requires
        list.no_duplicates(),
    ensures
        with_field(list, field).no_duplicates(),
        with_field(list, field).contains(field),
{
    let after = with_field(list, field);
    if !list.contains(field) {
        assert(after[list.len() as int] == field);
        assert forall|i: int, j: int| 0 <= i < after.len() && 0 <= j < after.len() && i != j implies after[i]
            != after[j] by {
            if i < list.len() && j < list.len() {
                assert(list[i] != list[j]);
            } else if i < list.len() {
                assert(list.contains(list[i]));
            } else {
                assert(list.contains(list[j]));
            }
        }
    }
}

// ---------------------------------------------------------------------------
// Refinements of an interpretation
// ---------------------------------------------------------------------------

/// A structured correction from the client, as far as it is well-formed.
#[derive(Debug)]
pub struct IntentDelta {
    pub party_size: Option<u64>,
    pub session_minutes_max: Option<u64>,
    pub platforms: Option<Vec<String>>,
    pub budget_max_each: Option<i64>,
    pub budget_currency: Option<String>,
}

pub open spec fn known_platform(name: Seq<char>) -> bool {
    name == "windows"@ || name == "macos"@ || name == "linux"@ || name == "steamdeck"@
}

pub open spec fn known_platforms(names: Seq<Seq<char>>) -> Seq<Seq<char>>
    decreases names.len(),
{
    if names.len() == 0 {
        Seq::empty()
    } else {
        push_if(known_platforms(names.drop_last()), known_platform(names.last()), names.last())
    }
}

fn select_known_platforms(names: &Vec<String>) -> (r: Vec<String>)
    ensures
        views(r@) == known_platforms(views(names@)),
{
    let mut out: Vec<String> = Vec::new();
    let mut i: usize = 0;
    assert(views(names@).take(0) =~= Seq::empty());
    assert(views(out@) =~= Seq::empty());
    while i < names.len()
        invariant
            0 <= i <= names@.len(),
            views(out@) == known_platforms(views(names@).take(i as int)),
        decreases names@.len() - i,
    {
        proof {
            let next = views(names@).take(i + 1);
            assert(next.drop_last() =~= views(names@).take(i as int));
            assert(next.last() == names@[i as int]@);
        }
        let name = names[i].as_str();
        let known = str_eq(name, "windows") || str_eq(name, "macos") || str_eq(name, "linux")
            || str_eq(name, "steamdeck");
        push_when(&mut out, known, name);
        i = i + 1;
    }
    assert(views(names@).take(names@.len() as int) =~= views(names@));
    out
}

pub open spec fn delta_party(delta: IntentDelta) -> bool {
    delta.party_size matches Some(n) && 1 <= n <= 64
}

pub open spec fn delta_platforms(delta: IntentDelta) -> Seq<Seq<char>> {
    match delta.platforms {
        Some(names) => known_platforms(views(names@)),
        None => Seq::empty(),
    }
}

pub open spec fn delta_budget(delta: IntentDelta) -> bool {
    delta.budget_max_each matches Some(n) && n >= 0
}

/// `new` is `old` with the correction laid over it. Whatever the correction sets
/// becomes a hard constraint.
pub open spec fn corrected(
    new: NaturalLanguageInterpretation,
    old: NaturalLanguageInterpretation,
    delta: IntentDelta,
) -> bool {
    &&& new.party_size == (if delta_party(delta) {
        Some(delta.party_size->0 as u8)
    } else {
        old.party_size
    })
    &&& new.session_minutes_max == (match delta.session_minutes_max {
        Some(n) => if n <= u32::MAX {
            Some(n as u32)
        } else {
            None
        },
        None => old.session_minutes_max,
    })
    &&& views(new.platforms@) == (if delta_platforms(delta).len() > 0 {
        delta_platforms(delta)
    } else {
        views(old.platforms@)
    })
    &&& new.max_price_minor == (if delta_budget(delta) {
        delta.budget_max_each
    } else {
        old.max_price_minor
    })
    &&& opt_view(new.currency) == (if delta_budget(delta) {
        match delta.budget_currency {
            Some(currency) => Some(currency@),
            None => Some("CNY"@),
        }
    } else {
        opt_view(old.currency)
    })
    &&& views(new.hard_constraints@) == with_field_if(
        with_field_if(
            with_field_if(
                with_field_if(views(old.hard_constraints@), delta_party(delta), "party_size"@),
                delta.session_minutes_max is Some,
                "session_minutes"@,
            ),
            delta_platforms(delta).len() > 0,
            "platforms"@,
        ),
        delta_budget(delta),
        "budget"@,
    )
    &&& new.coop_competitive == old.coop_competitive
    &&& new.self_hosting_willingness == old.self_hosting_willingness
    &&& new.demo_only == old.demo_only
    &&& new.selected_section == old.selected_section
    &&& new.selected_section_explicit == old.selected_section_explicit
    &&& new.modes_preferred == old.modes_preferred
    &&& new.modes_excluded == old.modes_excluded
    &&& new.applied_constraints == old.applied_constraints
    &&& new.unapplied_constraints == old.unapplied_constraints
    &&& new.intent_confidence == old.intent_confidence
}

pub fn apply_intent_delta(interpreted: &mut NaturalLanguageInterpretation, delta: &IntentDelta)
    ensures
        corrected(*final(interpreted), *old(interpreted), *delta),
{
    match delta.party_size {
        Some(size) => {
            if 1 <= size && size <= 64 {
                interpreted.party_size = Some(size as u8);
                push_hard(&mut interpreted.hard_constraints, "party_size");
            }
        },
        None => {},
    }
    match delta.session_minutes_max {
        Some(max) => {
            interpreted.session_minutes_max = if max <= u32::MAX as u64 {
                Some(max as u32)
            } else {
                None
            };
            push_hard(&mut interpreted.hard_constraints, "session_minutes");
        },
        None => {},
    }
    match &delta.platforms {
        Some(names) => {
            let next = select_known_platforms(names);
            assert(views(next@).len() == next@.len());
            if next.len() > 0 {
                interpreted.platforms = next;
                push_hard(&mut interpreted.hard_constraints, "platforms");
            }
        },
        None => {},
    }
    match delta.budget_max_each {
        Some(budget) => {
            if budget >= 0 {
                interpreted.max_price_minor = Some(budget);
                interpreted.currency = match &delta.budget_currency {
                    Some(currency) => Some(currency.clone()),
                    None => Some("CNY".to_owned()),
                };
                push_hard(&mut interpreted.hard_constraints, "budget");
            }
        },
        None => {},
    }
}

/// What a model read out of a request, merged with the rules.
#[derive(Debug)]
pub struct StructuredIntent {
    pub party_size: Option<u8>,
    pub platforms: Vec<String>,
    pub session_minutes_max: Option<u32>,
    /// Whether a budget was named at all.
    pub has_budget: bool,
    pub budget_max_each: Option<i64>,
    pub budget_currency: Option<String>,
    pub self_hosting: Option<String>,
    pub demo_required: Option<bool>,
    pub modes_preferred: Vec<String>,
    pub modes_excluded: Vec<String>,
    pub hard_constraints: Vec<String>,
    pub confidence: Score,
}

impl StructuredIntent {
    pub open spec fn hard(self, field: Seq<char>) -> bool {
        views(self.hard_constraints@).contains(field)
    }

    pub fn is_hard(&self, field: &str) -> (r: bool)
        ensures
            r == self.hard(field@),
    {
        list_contains(&self.hard_constraints, field)
    }
}

/// `new` is `old` refined by the model: a hard field of the model replaces what the
/// rules read, a soft one only fills a gap.
pub open spec fn refined(
    new: NaturalLanguageInterpretation,
    old: NaturalLanguageInterpretation,
    intent: StructuredIntent,
) -> bool {
    &&& new.party_size == (if (intent.hard("party_size"@) || old.party_size is None)
        && intent.party_size is Some {
        intent.party_size
    } else {
        old.party_size
    })
    &&& views(new.platforms@) == (if (intent.hard("platforms"@) || old.platforms@.len() == 0)
        && intent.platforms@.len() > 0 {
        views(intent.platforms@)
    } else {
        views(old.platforms@)
    })
    &&& new.session_minutes_max == (if (intent.hard("session_minutes"@)
        || old.session_minutes_max is None) && intent.session_minutes_max is Some {
        intent.session_minutes_max
    } else {
        old.session_minutes_max
    })
    &&& new.max_price_minor == (if intent.has_budget && intent.hard("budget"@) {
        intent.budget_max_each
    } else {
        old.max_price_minor
    })
    &&& opt_view(new.currency) == (if intent.has_budget && intent.hard("budget"@) {
        opt_view(intent.budget_currency)
    } else {
        opt_view(old.currency)
    })
    &&& new.self_hosting_willingness == (if opt_view(intent.self_hosting) == Some("required"@) {
        Some(Score { key: WILLING_KEY })
    } else {
        old.self_hosting_willingness
    })
    &&& new.demo_only == (intent.demo_required == Some(true) || old.demo_only)
    &&& new.selected_section == (if intent.demo_required == Some(true) {
        Some(FeedSection::Upcoming)
    } else {
        old.selected_section
    })
    &&& new.selected_section_explicit == (intent.demo_required == Some(true)
        || old.selected_section_explicit)
    &&& views(new.modes_preferred@) == views(intent.modes_preferred@)
    &&& views(new.modes_excluded@) == views(intent.modes_excluded@)
    &&& views(new.hard_constraints@) == views(intent.hard_constraints@)
    &&& new.intent_confidence == Some(intent.confidence)
    &&& new.coop_competitive == old.coop_competitive
    &&& new.applied_constraints == old.applied_constraints
    &&& new.unapplied_constraints == old.unapplied_constraints
}

pub fn apply_structured_intent(
    interpreted: &mut NaturalLanguageInterpretation,
    intent: &StructuredIntent,
)
    ensures
        refined(*final(interpreted), *old(interpreted), *intent),
{
    if intent.party_size.is_some() && (intent.is_hard("party_size")
        || interpreted.party_size.is_none()) {
        interpreted.party_size = intent.party_size;
    }
    if intent.platforms.len() > 0 && (intent.is_hard("platforms") || interpreted.platforms.len()
        == 0) {
        interpreted.platforms = clone_strings(&intent.platforms);
    }
    if intent.session_minutes_max.is_some() && (intent.is_hard("session_minutes")
        || interpreted.session_minutes_max.is_none()) {
        interpreted.session_minutes_max = intent.session_minutes_max;
    }
    if intent.has_budget && intent.is_hard("budget") {
        interpreted.max_price_minor = intent.budget_max_each;
        interpreted.currency = clone_opt(&intent.budget_currency);
    }
    let hosting_required = match &intent.self_hosting {
        Some(value) => str_eq(value.as_str(), "required"),
        None => false,
    };
    if hosting_required {
        interpreted.self_hosting_willingness = Some(Score { key: WILLING_KEY });
    }
    let demo_required = match intent.demo_required {
        Some(required) => required,
        None => false,
    };
    if demo_required {
        interpreted.demo_only = true;
        interpreted.selected_section = Some(FeedSection::Upcoming);
        interpreted.selected_section_explicit = true;
    }
    interpreted.modes_preferred = clone_strings(&intent.modes_preferred);
    interpreted.modes_excluded = clone_strings(&intent.modes_excluded);
    interpreted.hard_constraints = clone_strings(&intent.hard_constraints);
    interpreted.intent_confidence = Some(intent.confidence);
}

// ---------------------------------------------------------------------------
// Which constraints are honoured
// ---------------------------------------------------------------------------

/// The families of multiplayer modes.
#[derive(Debug, Clone, Copy, PartialEq, Eq, Structural)]
pub enum ModeFamily {
    PrivateCoop,
    MatchmadePvp,
    SelfHosted,
    PublicWorld,
    Mixed,
    GenericMultiplayer,
    Unknown,
}

/// What a mode alias stands for: the family, and the family's own name.
#[derive(Debug)]
pub struct ModeClass {
    pub family: ModeFamily,
    pub name: String,
}

/// What the preferred modes come to.
pub ghost struct Preference {
    pub normalized: Seq<Seq<char>>,
    pub unapplied: Seq<Seq<char>>,
    pub coop: bool,
    pub pvp: bool,
    pub hosting: bool,
}

/// The families that the ranking cannot prefer.
pub open spec fn unranked(family: ModeFamily) -> bool {
    family is PublicWorld || family is Mixed || family is GenericMultiplayer
}

/// Going through the preferred modes in turn: an unknown alias is kept but reported; a
/// known one is replaced by its family, and reported where the ranking cannot prefer it.
pub open spec fn prefer(
    raw: Seq<Seq<char>>,
    classes: Seq<ModeClass>,
    unapplied: Seq<Seq<char>>,
) -> Preference
    decreases raw.len(),
{
    if raw.len() == 0 {
        Preference { normalized: Seq::empty(), unapplied, coop: false, pvp: false, hosting: false }
    } else {
        let front = prefer(raw.drop_last(), classes.drop_last(), unapplied);
        let alias = raw.last();
        let class = classes.last();
        if class.family is Unknown {
            Preference {
                normalized: front.normalized.push(alias),
                unapplied: with_field(front.unapplied, "modes_preferred:"@ + alias),
                ..front
            }
        } else {
            Preference {
                normalized: with_field(front.normalized, class.name@),
                unapplied: with_field_if(
                    front.unapplied,
                    unranked(class.family),
                    "modes_preferred:"@ + class.name@,
                ),
                coop: front.coop || class.family is PrivateCoop,
                pvp: front.pvp || class.family is MatchmadePvp,
                hosting: front.hosting || class.family is SelfHosted,
            }
        }
    }
}

/// Going through the excluded modes in turn: normalised families, and what is reported.
pub open spec fn exclude(
    raw: Seq<Seq<char>>,
    classes: Seq<ModeClass>,
    unapplied: Seq<Seq<char>>,
) -> (Seq<Seq<char>>, Seq<Seq<char>>)
    decreases raw.len(),
{
    if raw.len() == 0 {
        (Seq::empty(), unapplied)
    } else {
        let front = exclude(raw.drop_last(), classes.drop_last(), unapplied);
        let class = classes.last();
        if class.family is Unknown {
            (front.0, with_field(front.1, "modes_excluded:"@ + raw.last()))
        } else {
            (with_field(front.0, class.name@), front.1)
        }
    }
}

/// The hard constraints that have a filter or a reported substitute of their own.
pub open spec fn represented(field: Seq<char>) -> bool {
    field == "party_size"@ || field == "platforms"@ || field == "budget"@ || field
        == "session_minutes"@ || field == "demo_required"@ || field == "modes_excluded"@ || field
        == "self_hosting"@
}

pub open spec fn report_unrepresented(fields: Seq<Seq<char>>, unapplied: Seq<Seq<char>>) -> Seq<
    Seq<char>,
>
    decreases fields.len(),
{
    if fields.len() == 0 {
        unapplied
    } else {
        with_field_if(
            report_unrepresented(fields.drop_last(), unapplied),
            !represented(fields.last()),
            "hard_constraint:"@ + fields.last(),
        )
    }
}

/// The dimensions that the deterministic feed honours, before the modes.
pub open spec fn applied_fields(i: NaturalLanguageInterpretation) -> Seq<Seq<char>> {
    with_field_if(
        with_field_if(
            with_field_if(
                with_field_if(
                    with_field_if(
                        with_field_if(
                            with_field_if(
                                with_field_if(
                                    Seq::empty(),
                                    i.party_size is Some,
                                    "party_size"@,
                                ),
                                i.session_minutes_max is Some,
                                "session_minutes"@,
                            ),
                            i.platforms@.len() > 0,
                            "platforms"@,
                        ),
                        i.max_price_minor is Some,
                        "budget"@,
                    ),
                    i.demo_only,
                    "demo_required"@,
                ),
                i.selected_section_explicit,
                "selected_section"@,
            ),
            i.coop_competitive is Some,
            "coop_competitive"@,
        ),
        i.self_hosting_willingness is Some,
        "self_hosting_preference"@,
    )
}

/// `new` is `old` with its modes normalised and its constraints accounted for.
pub open spec fn finalized(
    new: NaturalLanguageInterpretation,
    old: NaturalLanguageInterpretation,
    preferred: Seq<ModeClass>,
    excluded: Seq<ModeClass>,
) -> bool {
    let p = prefer(views(old.modes_preferred@), preferred, Seq::empty());
    let clash = p.coop && p.pvp;
    let applied_modes = with_field_if(
        with_field_if(applied_fields(old), !clash && (p.coop || p.pvp), "modes_preferred"@),
        p.hosting,
        "modes_preferred"@,
    );
    let after_preferred = with_field_if(p.unapplied, clash, "modes_preferred:coop_and_pvp"@);
    let x = exclude(views(old.modes_excluded@), excluded, after_preferred);
    &&& views(new.modes_preferred@) == p.normalized
    &&& views(new.modes_excluded@) == x.0
    &&& new.coop_competitive == (if clash {
        old.coop_competitive
    } else if p.coop {
        Some(Score { key: COOPERATIVE_KEY })
    } else if p.pvp {
        Some(Score { key: COMPETITIVE_KEY })
    } else {
        old.coop_competitive
    })
    &&& new.self_hosting_willingness == (if p.hosting {
        Some(Score { key: WILLING_KEY })
    } else {
        old.self_hosting_willingness
    })
    &&& views(new.applied_constraints@) == with_field_if(
        applied_modes,
        x.0.len() > 0,
        "modes_excluded"@,
    )
    &&& views(new.unapplied_constraints@) == report_unrepresented(
        views(old.hard_constraints@),
        with_field_if(
            x.1,
            views(old.hard_constraints@).contains("self_hosting"@),
            "self_hosting_hard_filter"@,
        ),
    )
    &&& new.party_size == old.party_size
    &&& new.session_minutes_max == old.session_minutes_max
    &&& new.platforms == old.platforms
    &&& new.demo_only == old.demo_only
    &&& new.selected_section == old.selected_section
    &&& new.selected_section_explicit == old.selected_section_explicit
    &&& new.max_price_minor == old.max_price_minor
    &&& new.currency == old.currency
    &&& new.hard_constraints == old.hard_constraints
    &&& new.intent_confidence == old.intent_confidence
}

proof fn lemma_with_field_if_keeps(list: Seq<Seq<char>>, condition: bool, field: Seq<char>)
    ensures
        list.no_duplicates() ==> with_field_if(list, condition, field).no_duplicates(),
        condition ==> with_field_if(list, condition, field).contains(field),
        forall|x: Seq<char>|
            list.contains(x) ==> #[trigger] with_field_if(list, condition, field).contains(x),
{
    if list.no_duplicates() {
        lemma_with_field_distinct(list, field);
    }
    let after = with_field_if(list, condition, field);
    assert forall|x: Seq<char>| list.contains(x) implies #[trigger] after.contains(x) by {
        let i = choose|i: int| 0 <= i < list.len() && list[i] == x;
        assert(after[i] == x);
    }
    if condition && !list.contains(field) {
        assert(after[list.len() as int] == field);
    }
}

proof fn lemma_preference_reports(
    raw: Seq<Seq<char>>,
    classes: Seq<ModeClass>,
    unapplied: Seq<Seq<char>>,
)
    requires
        unapplied.no_duplicates(),
    ensures
        prefer(raw, classes, unapplied).unapplied.no_duplicates(),
    decreases raw.len(),
{
    if raw.len() > 0 {
        lemma_preference_reports(raw.drop_last(), classes.drop_last(), unapplied);
        let front = prefer(raw.drop_last(), classes.drop_last(), unapplied);
        let class = classes.last();
        lemma_with_field_if_keeps(front.unapplied, true, "modes_preferred:"@ + raw.last());
        lemma_with_field_if_keeps(
            front.unapplied,
            unranked(class.family),
            "modes_preferred:"@ + class.name@,
        );
    }
}

proof fn lemma_exclusion_reports(
    raw: Seq<Seq<char>>,
    classes: Seq<ModeClass>,
    unapplied: Seq<Seq<char>>,
)
    requires
        unapplied.no_duplicates(),
    ensures
        exclude(raw, classes, unapplied).0.no_duplicates(),
        exclude(raw, classes, unapplied).1.no_duplicates(),
    decreases raw.len(),
{
    if raw.len() > 0 {
        lemma_exclusion_reports(raw.drop_last(), classes.drop_last(), unapplied);
        let front = exclude(raw.drop_last(), classes.drop_last(), unapplied);
        lemma_with_field_if_keeps(front.0, true, classes.last().name@);
        lemma_with_field_if_keeps(front.1, true, "modes_excluded:"@ + raw.last());
    }
}

proof fn lemma_unrepresented_reports(fields: Seq<Seq<char>>, unapplied: Seq<Seq<char>>)
    ensures
        unapplied.no_duplicates() ==> report_unrepresented(fields, unapplied).no_duplicates(),
        forall|x: Seq<char>|
            unapplied.contains(x) ==> #[trigger] report_unrepresented(fields, unapplied).contains(x),
        forall|i: int|
            0 <= i < fields.len() && !represented(#[trigger] fields[i]) ==> report_unrepresented(
                fields,
                unapplied,
            ).contains("hard_constraint:"@ + fields[i]),
    decreases fields.len(),
{
    if fields.len() > 0 {
        let front = report_unrepresented(fields.drop_last(), unapplied);
        lemma_unrepresented_reports(fields.drop_last(), unapplied);
        lemma_with_field_if_keeps(
            front,
            !represented(fields.last()),
            "hard_constraint:"@ + fields.last(),
        );
        assert forall|i: int|
            0 <= i < fields.len() && !represented(#[trigger] fields[i]) implies report_unrepresented(
            fields,
            unapplied,
        ).contains("hard_constraint:"@ + fields[i]) by {
            if i < fields.len() - 1 {
                assert(fields.drop_last()[i] == fields[i]);
                assert(front.contains("hard_constraint:"@ + fields[i]));
            }
        }
    }
}

proof fn lemma_applied_fields_distinct(i: NaturalLanguageInterpretation)
    ensures
        applied_fields(i).no_duplicates(),
{
    let a = with_field_if(Seq::empty(), i.party_size is Some, "party_size"@);
    lemma_with_field_if_keeps(Seq::empty(), i.party_size is Some, "party_size"@);
    let b = with_field_if(a, i.session_minutes_max is Some, "session_minutes"@);
    lemma_with_field_if_keeps(a, i.session_minutes_max is Some, "session_minutes"@);
    let c = with_field_if(b, i.platforms@.len() > 0, "platforms"@);
    lemma_with_field_if_keeps(b, i.platforms@.len() > 0, "platforms"@);
    let d = with_field_if(c, i.max_price_minor is Some, "budget"@);
    lemma_with_field_if_keeps(c, i.max_price_minor is Some, "budget"@);
    let e = with_field_if(d, i.demo_only, "demo_required"@);
    lemma_with_field_if_keeps(d, i.demo_only, "demo_required"@);
    let f = with_field_if(e, i.selected_section_explicit, "selected_section"@);
    lemma_with_field_if_keeps(e, i.selected_section_explicit, "selected_section"@);
    let g = with_field_if(f, i.coop_competitive is Some, "coop_competitive"@);
    lemma_with_field_if_keeps(f, i.coop_competitive is Some, "coop_competitive"@);
    lemma_with_field_if_keeps(
        g,
        i.self_hosting_willingness is Some,
        "self_hosting_preference"@,
    );
}

/// What is reported of a request is reported once: neither the constraints that are honoured
/// nor those that are not name one twice.
pub proof fn lemma_constraints_are_reported_once(
    new: NaturalLanguageInterpretation,
    before: NaturalLanguageInterpretation,
    preferred: Seq<ModeClass>,
    excluded: Seq<ModeClass>,
)
    requires
        finalized(new, before, preferred, excluded),
    ensures
        views(new.applied_constraints@).no_duplicates(),
        views(new.unapplied_constraints@).no_duplicates(),
        views(new.modes_excluded@).no_duplicates(),
{
    let p = prefer(views(before.modes_preferred@), preferred, Seq::empty());
    let clash = p.coop && p.pvp;
    lemma_applied_fields_distinct(before);
    let one = with_field_if(
        applied_fields(before),
        !clash && (p.coop || p.pvp),
        "modes_preferred"@,
    );
    lemma_with_field_if_keeps(
        applied_fields(before),
        !clash && (p.coop || p.pvp),
        "modes_preferred"@,
    );
    let two = with_field_if(one, p.hosting, "modes_preferred"@);
    lemma_with_field_if_keeps(one, p.hosting, "modes_preferred"@);
    lemma_preference_reports(views(before.modes_preferred@), preferred, Seq::empty());
    lemma_with_field_if_keeps(p.unapplied, clash, "modes_preferred:coop_and_pvp"@);
    let after_preferred = with_field_if(p.unapplied, clash, "modes_preferred:coop_and_pvp"@);
    lemma_exclusion_reports(views(before.modes_excluded@), excluded, after_preferred);
    let x = exclude(views(before.modes_excluded@), excluded, after_preferred);
    lemma_with_field_if_keeps(two, x.0.len() > 0, "modes_excluded"@);
    let hosted = views(before.hard_constraints@).contains("self_hosting"@);
    lemma_with_field_if_keeps(x.1, hosted, "self_hosting_hard_filter"@);
    lemma_unrepresented_reports(
        views(before.hard_constraints@),
        with_field_if(x.1, hosted, "self_hosting_hard_filter"@),
    );
}

/// No hard constraint is passed over in silence: one that the feed has no filter for is
/// reported as not honoured, and so is a demand for self-hosting, which is only preferred.
pub proof fn lemma_hard_constraints_are_accounted_for(
    new: NaturalLanguageInterpretation,
    before: NaturalLanguageInterpretation,
    preferred: Seq<ModeClass>,
    excluded: Seq<ModeClass>,
    i: int,
)
    requires
        finalized(new, before, preferred, excluded),
        0 <= i < before.hard_constraints@.len(),
    ensures
        ({
            let field = before.hard_constraints@[i]@;
            &&& represented(field) || views(new.unapplied_constraints@).contains(
                "hard_constraint:"@ + field,
            )
            &&& field == "self_hosting"@ ==> views(new.unapplied_constraints@).contains(
                "self_hosting_hard_filter"@,
            )
        }),
{
    let fields = views(before.hard_constraints@);
    let p = prefer(views(before.modes_preferred@), preferred, Seq::empty());
    let after_preferred = with_field_if(
        p.unapplied,
        p.coop && p.pvp,
        "modes_preferred:coop_and_pvp"@,
    );
    let x = exclude(views(before.modes_excluded@), excluded, after_preferred);
    let hosted = fields.contains("self_hosting"@);
    assert(fields[i] == before.hard_constraints@[i]@);
    lemma_with_field_if_keeps(x.1, hosted, "self_hosting_hard_filter"@);
    lemma_unrepresented_reports(
        fields,
        with_field_if(x.1, hosted, "self_hosting_hard_filter"@),
    );
}

/// Normalises the mode aliases and reports which dimensions the deterministic feed
/// honours and which it does not. `preferred` and `excluded` classify the aliases.
pub fn finalize_natural_language_constraints(
    interpreted: &mut NaturalLanguageInterpretation,
    preferred: &Vec<ModeClass>,
    excluded: &Vec<ModeClass>,
)
    requires
        preferred@.len() == old(interpreted).modes_preferred@.len(),
        excluded@.len() == old(interpreted).modes_excluded@.len(),
    ensures
        finalized(*final(interpreted), *old(interpreted), preferred@, excluded@),
{
    let ghost before = *interpreted;
    let mut applied: Vec<String> = Vec::new();
    assert(views(applied@) =~= Seq::empty());
    push_hard_when(&mut applied, interpreted.party_size.is_some(), "party_size");
    push_hard_when(&mut applied, interpreted.session_minutes_max.is_some(), "session_minutes");
    push_hard_when(&mut applied, interpreted.platforms.len() > 0, "platforms");
    push_hard_when(&mut applied, interpreted.max_price_minor.is_some(), "budget");
    push_hard_when(&mut applied, interpreted.demo_only, "demo_required");
    push_hard_when(&mut applied, interpreted.selected_section_explicit, "selected_section");
    push_hard_when(&mut applied, interpreted.coop_competitive.is_some(), "coop_competitive");
    push_hard_when(
        &mut applied,
        interpreted.self_hosting_willingness.is_some(),
        "self_hosting_preference",
    );
    assert(views(applied@) == applied_fields(before));

    let mut unapplied: Vec<String> = Vec::new();
    let mut normalized: Vec<String> = Vec::new();
    let mut coop = false;
    let mut pvp = false;
    let mut hosting = false;
    let ghost raw = views(before.modes_preferred@);
    let mut i: usize = 0;
    proof {
        assert(raw.take(0) =~= Seq::empty());
        assert(views(unapplied@) =~= Seq::empty());
        assert(views(normalized@) =~= Seq::empty());
    }
    while i < preferred.len()
        invariant
            0 <= i <= preferred@.len(),
            *interpreted == before,
            raw == views(before.modes_preferred@),
            preferred@.len() == before.modes_preferred@.len(),
            prefer(raw.take(i as int), preferred@.take(i as int), Seq::empty()) == (Preference {
                normalized: views(normalized@),
                unapplied: views(unapplied@),
                coop,
                pvp,
                hosting,
            }),
        decreases preferred@.len() - i,
    {
        proof {
            assert(raw.take(i + 1).drop_last() =~= raw.take(i as int));
            assert(preferred@.take(i + 1).drop_last() =~= preferred@.take(i as int));
            assert(raw.take(i + 1).last() == before.modes_preferred@[i as int]@);
            assert(preferred@.take(i + 1).last() == preferred@[i as int]);
        }
        let name = preferred[i].name.as_str();
        match preferred[i].family {
            ModeFamily::Unknown => {
                let alias = interpreted.modes_preferred[i].clone();
                push_hard(&mut unapplied, join2("modes_preferred:", alias.as_str()).as_str());
                proof {
                    assert(views(normalized@.push(alias)) =~= views(normalized@).push(alias@));
                }
                normalized.push(alias);
            },
            ModeFamily::PrivateCoop => {
                push_hard(&mut normalized, name);
                coop = true;
            },
            ModeFamily::MatchmadePvp => {
                push_hard(&mut normalized, name);
                pvp = true;
            },
            ModeFamily::SelfHosted => {
                push_hard(&mut normalized, name);
                hosting = true;
            },
            ModeFamily::PublicWorld | ModeFamily::Mixed | ModeFamily::GenericMultiplayer => {
                push_hard(&mut normalized, name);
                push_hard(&mut unapplied, join2("modes_preferred:", name).as_str());
            },
        }
        i = i + 1;
    }
    let ghost p = prefer(raw, preferred@, Seq::empty());
    proof {
        assert(raw.take(i as int) =~= raw);
        assert(preferred@.take(i as int) =~= preferred@);
    }
    let mut coop_competitive = interpreted.coop_competitive;
    if coop && pvp {
        push_hard(&mut unapplied, "modes_preferred:coop_and_pvp");
    } else if coop {
        coop_competitive = Some(Score { key: COOPERATIVE_KEY });
        push_hard(&mut applied, "modes_preferred");
    } else if pvp {
        coop_competitive = Some(Score { key: COMPETITIVE_KEY });
        push_hard(&mut applied, "modes_preferred");
    }
    let mut self_hosting_willingness = interpreted.self_hosting_willingness;
    if hosting {
        self_hosting_willingness = Some(Score { key: WILLING_KEY });
        push_hard(&mut applied, "modes_preferred");
    }
    let ghost after_preferred = views(unapplied@);

    let mut kept: Vec<String> = Vec::new();
    let ghost raw_excluded = views(before.modes_excluded@);
    let mut j: usize = 0;
    proof {
        assert(raw_excluded.take(0) =~= Seq::empty());
        assert(views(kept@) =~= Seq::empty());
    }
    while j < excluded.len()
        invariant
            0 <= j <= excluded@.len(),
            *interpreted == before,
            raw_excluded == views(before.modes_excluded@),
            excluded@.len() == before.modes_excluded@.len(),
            exclude(raw_excluded.take(j as int), excluded@.take(j as int), after_preferred) == (
                views(kept@),
                views(unapplied@),
            ),
        decreases excluded@.len() - j,
    {
        proof {
            assert(raw_excluded.take(j + 1).drop_last() =~= raw_excluded.take(j as int));
            assert(excluded@.take(j + 1).drop_last() =~= excluded@.take(j as int));
            assert(raw_excluded.take(j + 1).last() == before.modes_excluded@[j as int]@);
            assert(excluded@.take(j + 1).last() == excluded@[j as int]);
        }
        if matches!(excluded[j].family, ModeFamily::Unknown) {
            let alias = interpreted.modes_excluded[j].as_str();
            push_hard(&mut unapplied, join2("modes_excluded:", alias).as_str());
        } else {
            push_hard(&mut kept, excluded[j].name.as_str());
        }
        j = j + 1;
    }
    proof {
        assert(raw_excluded.take(j as int) =~= raw_excluded);
        assert(excluded@.take(j as int) =~= excluded@);
        assert(views(kept@).len() == kept@.len());
    }
    push_hard_when(&mut applied, kept.len() > 0, "modes_excluded");

    let hosting_hard = list_contains(&interpreted.hard_constraints, "self_hosting");
    push_hard_when(&mut unapplied, hosting_hard, "self_hosting_hard_filter");
    let ghost reported = views(unapplied@);
    let ghost fields = views(before.hard_constraints@);
    let mut k: usize = 0;
    assert(fields.take(0) =~= Seq::empty());
    while k < interpreted.hard_constraints.len()
        invariant
            0 <= k <= interpreted.hard_constraints@.len(),
            *interpreted == before,
            fields == views(before.hard_constraints@),
            views(unapplied@) == report_unrepresented(fields.take(k as int), reported),
        decreases interpreted.hard_constraints@.len() - k,
    {
        proof {
            assert(fields.take(k + 1).drop_last() =~= fields.take(k as int));
            assert(fields.take(k + 1).last() == before.hard_constraints@[k as int]@);
        }
        let field = interpreted.hard_constraints[k].as_str();
        let known = str_eq(field, "party_size") || str_eq(field, "platforms") || str_eq(
            field,
            "budget",
        ) || str_eq(field, "session_minutes") || str_eq(field, "demo_required") || str_eq(
            field,
            "modes_excluded",
        ) || str_eq(field, "self_hosting");
        if !known {
            push_hard(&mut unapplied, join2("hard_constraint:", field).as_str());
        }
        k = k + 1;
    }
    assert(fields.take(k as int) =~= fields);
    interpreted.modes_preferred = normalized;
    interpreted.modes_excluded = kept;
    interpreted.coop_competitive = coop_competitive;
    interpreted.self_hosting_willingness = self_hosting_willingness;
    interpreted.applied_constraints = applied;
    interpreted.unapplied_constraints = unapplied;
}

// ---------------------------------------------------------------------------
// From interpretation to recall
// ---------------------------------------------------------------------------

/// A query of 3 to 500 characters, without the white space around it.
pub open spec fn normalized_query(raw: Seq<char>) -> Option<Seq<char>> {
    if 3 <= trimmed(raw).len() <= 500 {
        Some(trimmed(raw))
    } else {
        None
    }
}

pub fn normalized_ai_query(raw: &str) -> (r: Option<String>)
    ensures
        opt_view(r) == normalized_query(raw@),
{
    let query = trim(raw);
    let count: usize = query.as_str().unicode_len();
    if 3 <= count && count <= 500 {
        Some(query)
    } else {
        None
    }
}

/// A list as one filter, or no filter where it is empty.
pub open spec fn list_filter(list: Seq<Seq<char>>) -> Option<Seq<char>> {
    if list.len() > 0 {
        Some(joined(list, ","@))
    } else {
        None
    }
}

fn filter_of(list: &Vec<String>) -> (r: Option<String>)
    ensures
        opt_view(r) == list_filter(views(list@)),
{
    assert(views(list@).len() == list@.len());
    if list.len() > 0 {
        Some(join(list, ","))
    } else {
        None
    }
}

/// The feed request that recalls candidates for an interpretation.
pub open spec fn recalls(q: FeedQuery, i: NaturalLanguageInterpretation) -> bool {
    &&& q.limit == Some(NATURAL_LANGUAGE_RECALL_LIMIT as i64)
    &&& q.page is None
    &&& q.cursor is None
    &&& q.party_size == i.party_size
    &&& q.coop_competitive == i.coop_competitive
    &&& q.self_hosting_willingness == i.self_hosting_willingness
    &&& opt_view(q.platforms) == list_filter(views(i.platforms@))
    &&& q.languages is None
    &&& opt_view(q.excluded_modes) == list_filter(views(i.modes_excluded@))
    &&& q.session_minutes_min is None
    &&& q.session_minutes_max == i.session_minutes_max
    &&& q.max_price_minor == i.max_price_minor
    &&& opt_view(q.currency) == opt_view(i.currency)
    &&& q.demo_only == Some(i.demo_only)
    &&& q.sort is None
    &&& q.order is None
}

pub fn recall_query(interpreted: &NaturalLanguageInterpretation) -> (r: FeedQuery)
    ensures
        recalls(r, *interpreted),
{
    FeedQuery {
        limit: Some(NATURAL_LANGUAGE_RECALL_LIMIT as i64),
        page: None,
        cursor: None,
        party_size: interpreted.party_size,
        coop_competitive: interpreted.coop_competitive,
        self_hosting_willingness: interpreted.self_hosting_willingness,
        platforms: filter_of(&interpreted.platforms),
        languages: None,
        excluded_modes: filter_of(&interpreted.modes_excluded),
        session_minutes_min: None,
        session_minutes_max: interpreted.session_minutes_max,
        max_price_minor: interpreted.max_price_minor,
        currency: clone_opt(&interpreted.currency),
        demo_only: Some(interpreted.demo_only),
        sort: None,
        order: None,
    }
}

// ---------------------------------------------------------------------------
// What the rules read
// ---------------------------------------------------------------------------

/// What the rules read out of a request, and a model's reading is held against.
#[derive(Debug)]
pub struct RuleIntentBaseline {
    pub party_size: Option<u8>,
    pub platforms: Vec<String>,
    pub session_minutes_max: Option<u32>,
    pub demo_required: bool,
    pub self_hosting_required: bool,
    pub coop_competitive: Option<Score>,
}

/// The key of `0.5`, the willingness from which on self-hosting is required.
pub const SELF_HOSTING_REQUIRED_KEY: i64 = 0x3fe0_0000_0000_0000;

pub open spec fn is_baseline(
    baseline: RuleIntentBaseline,
    rules: NaturalLanguageInterpretation,
) -> bool {
    &&& baseline.party_size == rules.party_size
    &&& views(baseline.platforms@) == views(rules.platforms@)
    &&& baseline.session_minutes_max == rules.session_minutes_max
    &&& baseline.demo_required == rules.demo_only
    &&& baseline.self_hosting_required == (rules.self_hosting_willingness is Some
        && rules.self_hosting_willingness->0.at_least(
        Score { key: SELF_HOSTING_REQUIRED_KEY },
    ))
    &&& baseline.coop_competitive == rules.coop_competitive
}

pub fn rule_intent_baseline(rules: &NaturalLanguageInterpretation) -> (r: RuleIntentBaseline)
    ensures
        is_baseline(r, *rules),
{
    let self_hosting_required = match rules.self_hosting_willingness {
        Some(willingness) => willingness.reaches(Score { key: SELF_HOSTING_REQUIRED_KEY }),
        None => false,
    };
    RuleIntentBaseline {
        party_size: rules.party_size,
        platforms: clone_strings(&rules.platforms),
        session_minutes_max: rules.session_minutes_max,
        demo_required: rules.demo_only,
        self_hosting_required,
        coop_competitive: rules.coop_competitive,
    }
}

// ---------------------------------------------------------------------------
// Sections
// ---------------------------------------------------------------------------

pub open spec fn all_sections() -> Seq<FeedSection> {
    seq![
        FeedSection::RecentRelease,
        FeedSection::Upcoming,
        FeedSection::PopularLegacy,
        FeedSection::ClassicLegacy,
    ]
}

/// The sections that are recalled: the one that was named, or all of them.
pub open spec fn sections_of(interpreted: NaturalLanguageInterpretation) -> Seq<FeedSection> {
    if interpreted.selected_section_explicit && interpreted.selected_section is Some {
        seq![interpreted.selected_section->0]
    } else {
        all_sections()
    }
}

pub fn recall_sections(interpreted: &NaturalLanguageInterpretation) -> (r: Vec<FeedSection>)
    ensures
        r@ == sections_of(*interpreted),
{
    let mut sections: Vec<FeedSection> = Vec::new();
    if interpreted.selected_section_explicit {
        match interpreted.selected_section {
            Some(section) => {
                sections.push(section);
                return sections;
            },
            None => {},
        }
    }
    sections.push(FeedSection::RecentRelease);
    sections.push(FeedSection::Upcoming);
    sections.push(FeedSection::PopularLegacy);
    sections.push(FeedSection::ClassicLegacy);
    sections
}

}
