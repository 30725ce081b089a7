//! What a request in words is taken to ask for.

use vstd::prelude::*;

use crate::score::Score;
use crate::server::feed_query::{FeedQuery, FeedSection};
use crate::server::intent::{
    apply_intent_delta, apply_structured_intent, corrected, extract_party_size,
    extract_session_minutes, finalize_natural_language_constraints, finalized, first_value,
    interpret_lowercase, interpret_natural_language, lowercase_of, mentions_any,
    normalized_ai_query, prefer, recall_query, recall_sections, refined, rule_intent_baseline, IntentDelta,
    ModeClass, NaturalLanguageInterpretation, RuleIntentBaseline, StructuredIntent,
};
use crate::text::{occurs_at, occurs_in, trimmed, views};

verus! {

/// The text holds the word, whole and in one piece.
pub open spec fn says(text: Seq<char>, word: Seq<char>) -> bool {
    exists|k: int| #[trigger] says_at(text, word, k)
}

pub open spec fn says_at(text: Seq<char>, word: Seq<char>, k: int) -> bool {
    0 <= k && k + word.len() <= text.len() && text.subrange(k, k + word.len()) == word
}

pub(crate) proof fn lemma_says(text: Seq<char>, word: Seq<char>)
    ensures
        says(text, word) <==> occurs_in(text, word),
{
    if says(text, word) {
        let k = choose|k: int| #[trigger] says_at(text, word, k);
        assert(occurs_at(text, word, k));
    }
    if occurs_in(text, word) {
        let k = choose|k: int| occurs_at(text, word, k);
        assert(text.subrange(k, k + word.len()) =~= word);
        assert(says_at(text, word, k));
    }
}

proof fn lemma_any(text: Seq<char>, needles: Seq<Seq<char>>)
    ensures
        mentions_any(text, needles) <==> exists|i: int|
            0 <= i < needles.len() && says(text, #[trigger] needles[i]),
{
    assert forall|i: int| 0 <= i < needles.len() implies says(text, #[trigger] needles[i])
        == occurs_in(text, needles[i]) by {
        lemma_says(text, needles[i]);
    }
    if mentions_any(text, needles) {
        let i = choose|i: int| 0 <= i < needles.len() && occurs_in(text, #[trigger] needles[i]);
        assert(says(text, needles[i]));
    }
    if exists|i: int| 0 <= i < needles.len() && says(text, #[trigger] needles[i]) {
        let i = choose|i: int| 0 <= i < needles.len() && says(text, #[trigger] needles[i]);
        assert(occurs_in(text, needles[i]));
    }
}

proof fn lemma_any3(text: Seq<char>, a: Seq<char>, b: Seq<char>, c: Seq<char>)
    ensures
        mentions_any(text, seq![a, b, c]) <==> says(text, a) || says(text, b) || says(text, c),
{
    let list = seq![a, b, c];
    lemma_any(text, list);
    assert(list[0] == a && list[1] == b && list[2] == c);
}

proof fn lemma_any4(text: Seq<char>, a: Seq<char>, b: Seq<char>, c: Seq<char>, d: Seq<char>)
    ensures
        mentions_any(text, seq![a, b, c, d]) <==> says(text, a) || says(text, b) || says(text, c)
            || says(text, d),
{
    let list = seq![a, b, c, d];
    lemma_any(text, list);
    assert(list[0] == a && list[1] == b && list[2] == c && list[3] == d);
}

proof fn lemma_any5(
    text: Seq<char>,
    a: Seq<char>,
    b: Seq<char>,
    c: Seq<char>,
    d: Seq<char>,
    e: Seq<char>,
)
    ensures
        mentions_any(text, seq![a, b, c, d, e]) <==> says(text, a) || says(text, b) || says(text, c)
            || says(text, d) || says(text, e),
{
    let list = seq![a, b, c, d, e];
    lemma_any(text, list);
    assert(list[0] == a && list[1] == b && list[2] == c && list[3] == d && list[4] == e);
}

// ---------------------------------------------------------------------------
// The section
// ---------------------------------------------------------------------------

/// A word for games that are not out yet.
pub open spec fn asks_upcoming(text: Seq<char>) -> bool {
    says(text, "即将"@) || says(text, "未发售"@) || says(text, "coming soon"@)
}

/// A word for a demo.
pub open spec fn asks_demo(text: Seq<char>) -> bool {
    says(text, "demo"@) || says(text, "试玩"@) || says(text, "playtest"@) || says(text, "测试版"@)
}

/// A word for a classic.
pub open spec fn asks_classic(text: Seq<char>) -> bool {
    says(text, "经典"@) || says(text, "老游戏"@) || says(text, "反复刷"@) || says(text, "耐玩"@)
        || says(text, "replayable"@)
}

/// A word for what many play.
pub open spec fn asks_popular(text: Seq<char>) -> bool {
    says(text, "热门"@) || says(text, "人多"@) || says(text, "popular"@)
}

/// What the words of a request select: upcoming games where it speaks of such or of a demo, else
/// classics, else popular games, each where it speaks of them, and otherwise nothing.
pub open spec fn selects(r: NaturalLanguageInterpretation, text: Seq<char>) -> bool {
    &&& asks_upcoming(text) || asks_demo(text) <==> r.selected_section == Some(
        FeedSection::Upcoming,
    )
    &&& asks_classic(text) && !asks_upcoming(text) && !asks_demo(text) <==> r.selected_section
        == Some(FeedSection::ClassicLegacy)
    &&& asks_popular(text) && !asks_classic(text) && !asks_upcoming(text) && !asks_demo(text)
        <==> r.selected_section == Some(FeedSection::PopularLegacy)
    &&& r.selected_section != Some(FeedSection::RecentRelease)
    &&& r.selected_section_explicit == (asks_upcoming(text) || asks_demo(text) || asks_classic(text)
        || asks_popular(text))
    &&& r.demo_only == asks_demo(text)
}

proof fn lemma_section_words(text: Seq<char>)
    ensures
        crate::server::intent::says_demo(text) == asks_demo(text),
        crate::server::intent::says_upcoming(text) == (asks_upcoming(text) || asks_demo(text)),
        crate::server::intent::says_classic(text) == asks_classic(text),
        crate::server::intent::says_popular(text) == asks_popular(text),
{
    lemma_any4(text, "demo"@, "试玩"@, "playtest"@, "测试版"@);
    lemma_any3(text, "即将"@, "未发售"@, "coming soon"@);
    lemma_any5(text, "经典"@, "老游戏"@, "反复刷"@, "耐玩"@, "replayable"@);
    lemma_any3(text, "热门"@, "人多"@, "popular"@);
}

/// The words of a lower case request select the section.
pub proof fn law_words_select_the_section(
    normalized: &str,
    r: NaturalLanguageInterpretation,
)
    requires
        call_ensures(interpret_lowercase, (normalized,), r),
    ensures
        selects(r, normalized@),
{
    lemma_section_words(normalized@);
}

/// A request is read in lower case.
pub proof fn law_requests_are_read_in_lower_case(query: &str, r: NaturalLanguageInterpretation)
    requires
        call_ensures(interpret_natural_language, (query,), r),
    ensures
        selects(r, lowercase_of(query@)),
{
    lemma_section_words(lowercase_of(query@));
}

// ---------------------------------------------------------------------------
// Temper, platforms and modes
// ---------------------------------------------------------------------------

pub open spec fn asks_casual(text: Seq<char>) -> bool {
    ||| says(text, "不要太卷"@)
    ||| says(text, "不太卷"@)
    ||| says(text, "不要太竞技"@)
    ||| says(text, "不竞技"@)
    ||| says(text, "休闲"@)
    ||| says(text, "轻松"@)
    ||| says(text, "合作"@)
    ||| says(text, "coop"@)
    ||| says(text, "casual"@)
}

pub open spec fn asks_competitive(text: Seq<char>) -> bool {
    says(text, "竞技"@) || says(text, "排位"@) || says(text, "competitive"@) || says(text, "ranked"@)
}

pub open spec fn asks_own_server(text: Seq<char>) -> bool {
    says(text, "自建服"@) || says(text, "自建服务器"@) || says(text, "专用服务器"@) || says(
        text,
        "self-host"@,
    ) || says(text, "dedicated server"@)
}

pub open spec fn asks_macos(text: Seq<char>) -> bool {
    says(text, "macos"@) || says(text, "mac os"@) || says(text, "mac版"@) || says(text, "mac 版"@)
}

pub open spec fn asks_coop(text: Seq<char>) -> bool {
    says(text, "合作"@) || says(text, "coop"@) || says(text, "co-op"@) || says(text, "co op"@)
}

pub open spec fn refuses_pvp(text: Seq<char>) -> bool {
    ||| says(text, "不要pvp"@)
    ||| says(text, "不要 pvp"@)
    ||| says(text, "不玩pvp"@)
    ||| says(text, "不玩 pvp"@)
    ||| says(text, "排除竞技"@)
    ||| says(text, "拒绝竞技"@)
    ||| says(text, "no pvp"@)
}

proof fn lemma_temper_words(text: Seq<char>)
    ensures
        crate::server::intent::says_casual(text) == asks_casual(text),
        crate::server::intent::says_competitive(text) == asks_competitive(text),
        crate::server::intent::says_self_hosted(text) == asks_own_server(text),
        crate::server::intent::says_macos(text) == asks_macos(text),
        crate::server::intent::says_coop_mode(text) == asks_coop(text),
        crate::server::intent::says_no_pvp(text) == refuses_pvp(text),
{
    lemma_any4(text, "竞技"@, "排位"@, "competitive"@, "ranked"@);
    lemma_any5(text, "自建服"@, "自建服务器"@, "专用服务器"@, "self-host"@, "dedicated server"@);
    lemma_any4(text, "macos"@, "mac os"@, "mac版"@, "mac 版"@);
    lemma_any4(text, "合作"@, "coop"@, "co-op"@, "co op"@);
    let casual = seq![
        "不要太卷"@,
        "不太卷"@,
        "不要太竞技"@,
        "不竞技"@,
        "休闲"@,
        "轻松"@,
        "合作"@,
        "coop"@,
        "casual"@,
    ];
    lemma_any(text, casual);
    assert(casual[0] == "不要太卷"@ && casual[1] == "不太卷"@ && casual[2] == "不要太竞技"@
        && casual[3] == "不竞技"@ && casual[4] == "休闲"@ && casual[5] == "轻松"@ && casual[6]
        == "合作"@ && casual[7] == "coop"@ && casual[8] == "casual"@);
    let refused = seq![
        "不要pvp"@,
        "不要 pvp"@,
        "不玩pvp"@,
        "不玩 pvp"@,
        "排除竞技"@,
        "拒绝竞技"@,
        "no pvp"@,
    ];
    lemma_any(text, refused);
    assert(refused[0] == "不要pvp"@ && refused[1] == "不要 pvp"@ && refused[2] == "不玩pvp"@
        && refused[3] == "不玩 pvp"@ && refused[4] == "排除竞技"@ && refused[5] == "拒绝竞技"@
        && refused[6] == "no pvp"@);
}

/// A casual word makes the request a cooperative one (0.1) whatever else it says; without one, a
/// competitive word makes it a competitive one (0.85).
pub proof fn law_casual_words_go_before_competitive_ones(
    normalized: &str,
    r: NaturalLanguageInterpretation,
)
    requires
        call_ensures(interpret_lowercase, (normalized,), r),
    ensures
        asks_casual(normalized@) <==> r.coop_competitive == Some(
            (Score { key: 0x3fb9_9999_9999_999a }),
        ),
        asks_competitive(normalized@) && !asks_casual(normalized@) <==> r.coop_competitive == Some(
            (Score { key: 0x3feb_3333_3333_3333 }),
        ),
        !asks_competitive(normalized@) && !asks_casual(normalized@) <==> r.coop_competitive is None,
        asks_own_server(normalized@) <==> r.self_hosting_willingness == Some(
            (Score { key: 0x3ff0_0000_0000_0000 }),
        ),
        !asks_own_server(normalized@) <==> r.self_hosting_willingness is None,
{
    lemma_temper_words(normalized@);
}

proof fn lemma_pushed(list: Seq<Seq<char>>, condition: bool, entry: Seq<char>, t: Seq<char>)
    ensures
        crate::server::intent::push_if(list, condition, entry).contains(t) <==> list.contains(t)
            || (condition && t == entry),
{
    let all = crate::server::intent::push_if(list, condition, entry);
    if condition {
        assert(all[list.len() as int] == entry);
        if list.contains(t) {
            let k = choose|k: int| 0 <= k < list.len() && list[k] == t;
            assert(all[k] == t);
        }
        if all.contains(t) {
            let k = choose|k: int| 0 <= k < all.len() && all[k] == t;
            if k < list.len() {
                assert(list[k] == t);
            }
        }
    }
}

/// The platforms are those that the request names, and no others.
pub proof fn law_platforms_are_those_named(
    normalized: &str,
    r: NaturalLanguageInterpretation,
    name: Seq<char>,
)
    requires
        call_ensures(interpret_lowercase, (normalized,), r),
    ensures
        views(r.platforms@).contains(name) <==> {
            ||| name == "windows"@ && says(normalized@, "windows"@)
            ||| name == "macos"@ && asks_macos(normalized@)
            ||| name == "linux"@ && says(normalized@, "linux"@)
        },
{
    let text = normalized@;
    lemma_temper_words(text);
    lemma_says(text, "windows"@);
    lemma_says(text, "linux"@);
    let none = Seq::<Seq<char>>::empty();
    let a = crate::server::intent::push_if(none, occurs_in(text, "windows"@), "windows"@);
    let b = crate::server::intent::push_if(
        a,
        crate::server::intent::says_macos(text),
        "macos"@,
    );
    lemma_pushed(none, occurs_in(text, "windows"@), "windows"@, name);
    lemma_pushed(a, crate::server::intent::says_macos(text), "macos"@, name);
    lemma_pushed(b, occurs_in(text, "linux"@), "linux"@, name);
}

/// Preferred modes are cooperation, matches with strangers (unless the request is casual) and a
/// server of one's own, each where the request names it; matches are excluded where it refuses
/// them.
pub proof fn law_modes_are_those_named(
    normalized: &str,
    r: NaturalLanguageInterpretation,
    name: Seq<char>,
)
    requires
        call_ensures(interpret_lowercase, (normalized,), r),
    ensures
        views(r.modes_preferred@).contains(name) <==> {
            ||| name == "private_coop"@ && asks_coop(normalized@)
            ||| name == "matchmade_pvp"@ && asks_competitive(normalized@) && !asks_casual(
                normalized@,
            )
            ||| name == "self_hosted"@ && asks_own_server(normalized@)
        },
        views(r.modes_excluded@).contains(name) <==> name == "matchmade_pvp"@ && refuses_pvp(
            normalized@,
        ),
{
    let text = normalized@;
    lemma_temper_words(text);
    let none = Seq::<Seq<char>>::empty();
    let coop = crate::server::intent::says_coop_mode(text);
    let pvp = crate::server::intent::says_competitive(text) && !crate::server::intent::says_casual(
        text,
    );
    let own = crate::server::intent::says_self_hosted(text);
    let a = crate::server::intent::push_if(none, coop, "private_coop"@);
    let b = crate::server::intent::push_if(a, pvp, "matchmade_pvp"@);
    lemma_pushed(none, coop, "private_coop"@, name);
    lemma_pushed(a, pvp, "matchmade_pvp"@, name);
    lemma_pushed(b, own, "self_hosted"@, name);
    lemma_pushed(none, crate::server::intent::says_no_pvp(text), "matchmade_pvp"@, name);
}

/// What a request pins down is what it says: each hard constraint stands exactly where the
/// interpretation holds a value for it.
pub proof fn law_hard_constraints_are_what_was_said(
    normalized: &str,
    r: NaturalLanguageInterpretation,
)
    requires
        call_ensures(interpret_lowercase, (normalized,), r),
    ensures
        views(r.hard_constraints@).contains("party_size"@) <==> r.party_size is Some,
        views(r.hard_constraints@).contains("session_minutes"@) <==> r.session_minutes_max is Some,
        views(r.hard_constraints@).contains("platforms"@) <==> r.platforms@.len() > 0,
        views(r.hard_constraints@).contains("demo_required"@) <==> r.demo_only,
        views(r.hard_constraints@).contains("self_hosting"@)
            <==> r.self_hosting_willingness is Some,
        views(r.hard_constraints@).contains("modes_excluded"@) <==> r.modes_excluded@.len() > 0,
        r.max_price_minor is None,
        r.applied_constraints@.len() == 0,
        r.unapplied_constraints@.len() == 0,
{
    let text = normalized@;
    assert(views(r.platforms@).len() == r.platforms@.len());
    assert(views(r.modes_excluded@).len() == r.modes_excluded@.len());
    lemma_hard(text, "party_size"@);
    lemma_hard(text, "session_minutes"@);
    lemma_hard(text, "platforms"@);
    lemma_hard(text, "demo_required"@);
    lemma_hard(text, "self_hosting"@);
    lemma_hard(text, "modes_excluded"@);
    reveal_strlit("party_size");
    reveal_strlit("session_minutes");
    reveal_strlit("platforms");
    reveal_strlit("demo_required");
    reveal_strlit("self_hosting");
    reveal_strlit("modes_excluded");
    assert("party_size"@.len() == 10 && "session_minutes"@.len() == 15 && "platforms"@.len() == 9
        && "demo_required"@.len() == 13 && "self_hosting"@.len() == 12 && "modes_excluded"@.len()
        == 14);
}

proof fn lemma_hard(text: Seq<char>, t: Seq<char>)
    ensures
        crate::server::intent::hard_of(text).contains(t) <==> {
            ||| t == "party_size"@ && crate::server::intent::party_size_of(text) is Some
            ||| t == "session_minutes"@ && crate::server::intent::session_minutes_of(text) is Some
            ||| t == "platforms"@ && crate::server::intent::platforms_of(text).len() > 0
            ||| t == "demo_required"@ && crate::server::intent::says_demo(text)
            ||| t == "self_hosting"@ && crate::server::intent::says_self_hosted(text)
            ||| t == "modes_excluded"@ && crate::server::intent::says_no_pvp(text)
        },
{
    let none = Seq::<Seq<char>>::empty();
    let size = crate::server::intent::party_size_of(text) is Some;
    let minutes = crate::server::intent::session_minutes_of(text) is Some;
    let platforms = crate::server::intent::platforms_of(text).len() > 0;
    let demo = crate::server::intent::says_demo(text);
    let own = crate::server::intent::says_self_hosted(text);
    let a = crate::server::intent::push_if(none, size, "party_size"@);
    let b = crate::server::intent::push_if(a, minutes, "session_minutes"@);
    let c = crate::server::intent::push_if(b, platforms, "platforms"@);
    let d = crate::server::intent::push_if(c, demo, "demo_required"@);
    let e = crate::server::intent::push_if(d, own, "self_hosting"@);
    lemma_pushed(none, size, "party_size"@, t);
    lemma_pushed(a, minutes, "session_minutes"@, t);
    lemma_pushed(b, platforms, "platforms"@, t);
    lemma_pushed(c, demo, "demo_required"@, t);
    lemma_pushed(d, own, "self_hosting"@, t);
    lemma_pushed(e, crate::server::intent::says_no_pvp(text), "modes_excluded"@, t);
}

// ---------------------------------------------------------------------------
// Numbers
// ---------------------------------------------------------------------------

proof fn lemma_first(
    text: Seq<char>,
    tokens: Seq<(Seq<char>, u32)>,
    suffixes: Seq<Seq<char>>,
)
    ensures
        first_value(text, tokens, suffixes) is None <==> forall|i: int|
            0 <= i < tokens.len() ==> !crate::server::intent::counts_with(
                text,
                (#[trigger] tokens[i]).0,
                suffixes,
            ),
        first_value(text, tokens, suffixes) matches Some(v) ==> exists|i: int|
            0 <= i < tokens.len() && (#[trigger] tokens[i]).1 == v
                && crate::server::intent::counts_with(text, tokens[i].0, suffixes) && forall|j: int|
                0 <= j < i ==> !crate::server::intent::counts_with(
                    text,
                    (#[trigger] tokens[j]).0,
                    suffixes,
                ),
    decreases tokens.len(),
{
    if tokens.len() > 0 && !crate::server::intent::counts_with(text, tokens[0].0, suffixes) {
        let rest = tokens.drop_first();
        lemma_first(text, rest, suffixes);
        assert forall|i: int| 0 < i < tokens.len() implies tokens[i] == rest[i - 1] by {}
        if first_value(text, tokens, suffixes) is None {
            assert forall|i: int| 0 <= i < tokens.len() implies !crate::server::intent::counts_with(
                text,
                (#[trigger] tokens[i]).0,
                suffixes,
            ) by {
                if i > 0 {
                    assert(tokens[i] == rest[i - 1]);
                }
            }
        } else {
            let v = first_value(text, tokens, suffixes)->0;
            let i = choose|i: int|
                0 <= i < rest.len() && (#[trigger] rest[i]).1 == v
                    && crate::server::intent::counts_with(text, rest[i].0, suffixes) && forall|
                    j: int,
                |
                    0 <= j < i ==> !crate::server::intent::counts_with(
                        text,
                        (#[trigger] rest[j]).0,
                        suffixes,
                    );
            assert(tokens[i + 1] == rest[i]);
            assert forall|j: int| 0 <= j < i + 1 implies !crate::server::intent::counts_with(
                text,
                (#[trigger] tokens[j]).0,
                suffixes,
            ) by {
                if j > 0 {
                    assert(tokens[j] == rest[j - 1]);
                }
            }
        }
    }
    if tokens.len() > 0 && crate::server::intent::counts_with(text, tokens[0].0, suffixes) {
        assert(tokens[0].1 == first_value(text, tokens, suffixes)->0);
    }
}

/// The text counts people with this numeral.
pub open spec fn counts_people(text: Seq<char>, numeral: Seq<char>) -> bool {
    says(text, numeral + "个人"@) || says(text, numeral + " 人"@) || says(text, numeral + "人"@)
        || says(text, numeral + " people"@) || says(text, numeral + " players"@)
}

/// The digit and the character for a number of people.
pub open spec fn digit_of(n: int) -> Seq<char> {
    if n == 1 {
        "1"@
    } else if n == 2 {
        "2"@
    } else if n == 3 {
        "3"@
    } else if n == 4 {
        "4"@
    } else if n == 5 {
        "5"@
    } else if n == 6 {
        "6"@
    } else if n == 7 {
        "7"@
    } else {
        "8"@
    }
}

pub open spec fn character_of(n: int) -> Seq<char> {
    if n == 1 {
        "一"@
    } else if n == 2 {
        "二"@
    } else if n == 3 {
        "三"@
    } else if n == 4 {
        "四"@
    } else if n == 5 {
        "五"@
    } else if n == 6 {
        "六"@
    } else if n == 7 {
        "七"@
    } else {
        "八"@
    }
}

pub open spec fn word_of(n: int) -> Seq<char> {
    if n == 1 {
        "one"@
    } else if n == 2 {
        "two"@
    } else if n == 3 {
        "three"@
    } else if n == 4 {
        "four"@
    } else if n == 5 {
        "five"@
    } else if n == 6 {
        "six"@
    } else if n == 7 {
        "seven"@
    } else {
        "eight"@
    }
}

/// The text speaks of so many people, in a numeral or in a word.
pub open spec fn party_in_numerals(text: Seq<char>, n: int) -> bool {
    counts_people(text, digit_of(n)) || counts_people(text, character_of(n))
}

pub open spec fn party_in_words(text: Seq<char>, n: int) -> bool {
    says(text, word_of(n) + " people"@) || says(text, word_of(n) + " players"@)
}

proof fn lemma_people(text: Seq<char>, numeral: Seq<char>)
    ensures
        crate::server::intent::counts_with(
            text,
            numeral,
            seq!["个人"@, " 人"@, "人"@, " people"@, " players"@],
        ) == counts_people(text, numeral),
        crate::server::intent::counts_with(text, numeral, seq![" people"@, " players"@]) == (says(
            text,
            numeral + " people"@,
        ) || says(text, numeral + " players"@)),
{
    let all = seq!["个人"@, " 人"@, "人"@, " people"@, " players"@];
    let two = seq![" people"@, " players"@];
    lemma_says(text, numeral + "个人"@);
    lemma_says(text, numeral + " 人"@);
    lemma_says(text, numeral + "人"@);
    lemma_says(text, numeral + " people"@);
    lemma_says(text, numeral + " players"@);
    assert(all[0] == "个人"@ && all[1] == " 人"@ && all[2] == "人"@ && all[3] == " people"@ && all[4]
        == " players"@);
    assert(two[0] == " people"@ && two[1] == " players"@);
}

/// The size of the party is the smallest number from one to eight that the request counts people
/// with, numerals going before words; where it counts none there is no size.
pub proof fn law_party_is_the_number_counted(query: &str, r: Option<u8>, n: int)
    requires
        call_ensures(extract_party_size, (query,), r),
        1 <= n <= 8,
    ensures
        party_in_numerals(query@, n) && (forall|m: int|
            1 <= m < n ==> !#[trigger] party_in_numerals(query@, m)) ==> r == Some(n as u8),
        party_in_words(query@, n) && (forall|m: int|
            1 <= m < n ==> !#[trigger] party_in_words(query@, m)) && (forall|m: int|
            1 <= m <= 8 ==> !#[trigger] party_in_numerals(query@, m)) ==> r == Some(n as u8),
        (forall|m: int| 1 <= m <= 8 ==> !#[trigger] party_in_numerals(query@, m)) && (forall|m: int|
            1 <= m <= 8 ==> !#[trigger] party_in_words(query@, m)) <==> r is None,
{
    let text = query@;
    let numerals = crate::server::intent::party_numerals();
    let words = crate::server::intent::party_words();
    let all = seq!["个人"@, " 人"@, "人"@, " people"@, " players"@];
    let two = seq![" people"@, " players"@];
    lemma_first(text, numerals, all);
    lemma_first(text, words, two);
    assert forall|i: int| 0 <= i < 16 implies {
        &&& (#[trigger] numerals[i]).1 == i / 2 + 1
        &&& numerals[i].0 == (if i % 2 == 0 {
            digit_of(i / 2 + 1)
        } else {
            character_of(i / 2 + 1)
        })
        &&& crate::server::intent::counts_with(text, numerals[i].0, all) == counts_people(
            text,
            numerals[i].0,
        )
    } by {
        lemma_people(text, numerals[i].0);
    }
    assert forall|i: int| 0 <= i < 8 implies {
        &&& (#[trigger] words[i]).1 == i + 1
        &&& words[i].0 == word_of(i + 1)
        &&& crate::server::intent::counts_with(text, words[i].0, two) == party_in_words(text, i + 1)
    } by {
        lemma_people(text, words[i].0);
    }
    assert(numerals.len() == 16 && words.len() == 8);
    assert forall|m: int| 1 <= m <= 8 implies #[trigger] party_in_numerals(text, m) == (
    crate::server::intent::counts_with(text, numerals[2 * (m - 1)].0, all)
        || crate::server::intent::counts_with(text, numerals[2 * (m - 1) + 1].0, all)) by {
        assert(numerals[2 * (m - 1)].0 == digit_of(m));
        assert(numerals[2 * (m - 1) + 1].0 == character_of(m));
    }
    assert forall|m: int| 1 <= m <= 8 implies #[trigger] party_in_words(text, m)
        == crate::server::intent::counts_with(text, words[m - 1].0, two) by {
        assert(words[m - 1].0 == word_of(m));
    }
    if let Some(v) = first_value(text, numerals, all) {
        let i = choose|i: int|
            0 <= i < numerals.len() && (#[trigger] numerals[i]).1 == v
                && crate::server::intent::counts_with(text, numerals[i].0, all) && forall|j: int|
                0 <= j < i ==> !crate::server::intent::counts_with(
                    text,
                    (#[trigger] numerals[j]).0,
                    all,
                );
        let m = i / 2 + 1;
        assert(party_in_numerals(text, m));
        assert(r == Some(m as u8));
        if n < m {
            assert(!crate::server::intent::counts_with(text, numerals[2 * (n - 1)].0, all));
            assert(!crate::server::intent::counts_with(text, numerals[2 * (n - 1) + 1].0, all));
            assert(!party_in_numerals(text, n));
        }
    } else {
        assert forall|m: int| 1 <= m <= 8 implies !#[trigger] party_in_numerals(text, m) by {
            assert(!crate::server::intent::counts_with(text, numerals[2 * (m - 1)].0, all));
            assert(!crate::server::intent::counts_with(text, numerals[2 * (m - 1) + 1].0, all));
        }
        if let Some(v) = first_value(text, words, two) {
            let i = choose|i: int|
                0 <= i < words.len() && (#[trigger] words[i]).1 == v
                    && crate::server::intent::counts_with(text, words[i].0, two) && forall|j: int|
                    0 <= j < i ==> !crate::server::intent::counts_with(
                        text,
                        (#[trigger] words[j]).0,
                        two,
                    );
            assert(party_in_words(text, i + 1));
            assert(r == Some((i + 1) as u8));
            if n < i + 1 {
                assert(!crate::server::intent::counts_with(text, words[n - 1].0, two));
            }
        } else {
            assert forall|m: int| 1 <= m <= 8 implies !#[trigger] party_in_words(text, m) by {
                assert(!crate::server::intent::counts_with(text, words[m - 1].0, two));
            }
        }
    }
}

/// The text speaks of so many hours, in a numeral or in a word.
pub open spec fn hours_in_numerals(text: Seq<char>, n: int) -> bool {
    ||| says(text, digit_of(n) + "小时"@)
    ||| says(text, digit_of(n) + " 小时"@)
    ||| says(text, digit_of(n) + " hour"@)
    ||| says(text, character_of(n) + "小时"@)
    ||| says(text, character_of(n) + " 小时"@)
    ||| says(text, character_of(n) + " hour"@)
}

pub open spec fn hours_in_words(text: Seq<char>, n: int) -> bool {
    says(text, word_of(n) + " hour"@) || says(text, word_of(n) + " hours"@)
}

proof fn lemma_hours(text: Seq<char>, numeral: Seq<char>)
    ensures
        crate::server::intent::counts_with(text, numeral, seq!["小时"@, " 小时"@, " hour"@]) == (says(
            text,
            numeral + "小时"@,
        ) || says(text, numeral + " 小时"@) || says(text, numeral + " hour"@)),
        crate::server::intent::counts_with(text, numeral, seq![" hour"@, " hours"@]) == (says(
            text,
            numeral + " hour"@,
        ) || says(text, numeral + " hours"@)),
        crate::server::intent::counts_with(text, numeral, seq!["分钟"@, " 分钟"@, " min"@]) == (says(
            text,
            numeral + "分钟"@,
        ) || says(text, numeral + " 分钟"@) || says(text, numeral + " min"@)),
{
    let a = seq!["小时"@, " 小时"@, " hour"@];
    let b = seq![" hour"@, " hours"@];
    let c = seq!["分钟"@, " 分钟"@, " min"@];
    lemma_says(text, numeral + "小时"@);
    lemma_says(text, numeral + " 小时"@);
    lemma_says(text, numeral + " hour"@);
    lemma_says(text, numeral + " hours"@);
    lemma_says(text, numeral + "分钟"@);
    lemma_says(text, numeral + " 分钟"@);
    lemma_says(text, numeral + " min"@);
    assert(a[0] == "小时"@ && a[1] == " 小时"@ && a[2] == " hour"@);
    assert(b[0] == " hour"@ && b[1] == " hours"@);
    assert(c[0] == "分钟"@ && c[1] == " 分钟"@ && c[2] == " min"@);
}

/// A session of so many hours is sixty times as many minutes, from one hour to four; numerals go
/// before words, and hours before minutes.
pub proof fn law_hours_are_sixty_minutes(query: &str, r: Option<u32>, n: int)
    requires
        call_ensures(extract_session_minutes, (query,), r),
        1 <= n <= 4,
    ensures
        hours_in_numerals(query@, n) && (forall|m: int|
            1 <= m < n ==> !#[trigger] hours_in_numerals(query@, m)) ==> r == Some((60 * n) as u32),
        hours_in_words(query@, n) && (forall|m: int|
            1 <= m < n ==> !#[trigger] hours_in_words(query@, m)) && (forall|m: int|
            1 <= m <= 4 ==> !#[trigger] hours_in_numerals(query@, m)) ==> r == Some(
            (60 * n) as u32,
        ),
{
    let text = query@;
    let numerals = crate::server::intent::hour_numerals();
    let words = crate::server::intent::hour_words();
    let a = seq!["小时"@, " 小时"@, " hour"@];
    let b = seq![" hour"@, " hours"@];
    lemma_first(text, numerals, a);
    lemma_first(text, words, b);
    assert(numerals.len() == 8 && words.len() == 4);
    assert forall|i: int| 0 <= i < 8 implies {
        &&& (#[trigger] numerals[i]).1 == 60 * (i / 2 + 1)
        &&& numerals[i].0 == (if i % 2 == 0 {
            digit_of(i / 2 + 1)
        } else {
            character_of(i / 2 + 1)
        })
    } by {}
    assert forall|i: int| 0 <= i < 4 implies {
        &&& (#[trigger] words[i]).1 == 60 * (i + 1)
        &&& words[i].0 == word_of(i + 1)
        &&& crate::server::intent::counts_with(text, words[i].0, b) == hours_in_words(text, i + 1)
    } by {
        lemma_hours(text, words[i].0);
    }
    assert forall|m: int| 1 <= m <= 4 implies #[trigger] hours_in_numerals(text, m) == (
    crate::server::intent::counts_with(text, numerals[2 * (m - 1)].0, a)
        || crate::server::intent::counts_with(text, numerals[2 * (m - 1) + 1].0, a)) by {
        assert(numerals[2 * (m - 1)].0 == digit_of(m));
        assert(numerals[2 * (m - 1) + 1].0 == character_of(m));
        lemma_hours(text, digit_of(m));
        lemma_hours(text, character_of(m));
    }
    if let Some(v) = first_value(text, numerals, a) {
        let i = choose|i: int|
            0 <= i < numerals.len() && (#[trigger] numerals[i]).1 == v
                && crate::server::intent::counts_with(text, numerals[i].0, a) && forall|j: int|
                0 <= j < i ==> !crate::server::intent::counts_with(
                    text,
                    (#[trigger] numerals[j]).0,
                    a,
                );
        let m = i / 2 + 1;
        assert(numerals[i] == numerals[2 * (m - 1)] || numerals[i] == numerals[2 * (m - 1) + 1]);
        assert(hours_in_numerals(text, m));
        assert(r == Some((60 * m) as u32));
        if n < m {
            assert(!crate::server::intent::counts_with(text, numerals[2 * (n - 1)].0, a));
            assert(!crate::server::intent::counts_with(text, numerals[2 * (n - 1) + 1].0, a));
            assert(!hours_in_numerals(text, n));
        }
    } else {
        assert forall|m: int| 1 <= m <= 4 implies !#[trigger] hours_in_numerals(text, m) by {
            assert(!crate::server::intent::counts_with(text, numerals[2 * (m - 1)].0, a));
            assert(!crate::server::intent::counts_with(text, numerals[2 * (m - 1) + 1].0, a));
        }
        assert(!hours_in_numerals(text, n));
        if let Some(v) = first_value(text, words, b) {
            let i = choose|i: int|
                0 <= i < words.len() && (#[trigger] words[i]).1 == v
                    && crate::server::intent::counts_with(text, words[i].0, b) && forall|j: int|
                    0 <= j < i ==> !crate::server::intent::counts_with(
                        text,
                        (#[trigger] words[j]).0,
                        b,
                    );
            assert(hours_in_words(text, i + 1));
            assert(r == Some((60 * (i + 1)) as u32));
            if n < i + 1 {
                assert(!crate::server::intent::counts_with(text, words[n - 1].0, b));
            }
        } else {
            assert(!crate::server::intent::counts_with(text, words[n - 1].0, b));
            assert(words[n - 1].0 == word_of(n));
        }
    }
}

/// Minutes are taken from the request only where it names no hours: then a number of minutes
/// that is understood is one that stands in the text before a word for minutes.
pub proof fn law_minutes_are_those_named(query: &str, r: Option<u32>)
    requires
        call_ensures(extract_session_minutes, (query,), r),
        forall|m: int| 1 <= m <= 4 ==> !#[trigger] hours_in_numerals(query@, m),
        forall|m: int| 1 <= m <= 4 ==> !#[trigger] hours_in_words(query@, m),
        r is Some,
    ensures
        exists|token: Seq<char>| #[trigger]
            is_minutes(token, r->0) && (says(query@, token + "分钟"@) || says(
                query@,
                token + " 分钟"@,
            ) || says(query@, token + " min"@)),
{
    let text = query@;
    let numerals = crate::server::intent::hour_numerals();
    let words = crate::server::intent::hour_words();
    let minutes = crate::server::intent::minute_numerals();
    let a = seq!["小时"@, " 小时"@, " hour"@];
    let b = seq![" hour"@, " hours"@];
    let c = seq!["分钟"@, " 分钟"@, " min"@];
    lemma_first(text, numerals, a);
    lemma_first(text, words, b);
    lemma_first(text, minutes, c);
    assert(numerals.len() == 8 && words.len() == 4 && minutes.len() == 9);
    assert forall|i: int| 0 <= i < 8 implies !crate::server::intent::counts_with(
        text,
        (#[trigger] numerals[i]).0,
        a,
    ) by {
        let m = i / 2 + 1;
        assert(numerals[i].0 == (if i % 2 == 0 {
            digit_of(m)
        } else {
            character_of(m)
        }));
        lemma_hours(text, numerals[i].0);
        assert(!hours_in_numerals(text, m));
    }
    assert forall|i: int| 0 <= i < 4 implies !crate::server::intent::counts_with(
        text,
        (#[trigger] words[i]).0,
        b,
    ) by {
        assert(words[i].0 == word_of(i + 1));
        lemma_hours(text, words[i].0);
        assert(!hours_in_words(text, i + 1));
    }
    let v = first_value(text, minutes, c)->0;
    let i = choose|i: int|
        0 <= i < minutes.len() && (#[trigger] minutes[i]).1 == v
            && crate::server::intent::counts_with(text, minutes[i].0, c) && forall|j: int|
            0 <= j < i ==> !crate::server::intent::counts_with(text, (#[trigger] minutes[j]).0, c);
    lemma_hours(text, minutes[i].0);
    assert(is_minutes(minutes[i].0, v));
}

/// The numeral names so many minutes.
pub open spec fn is_minutes(token: Seq<char>, minutes: u32) -> bool {
    ||| token == "15"@ && minutes == 15
    ||| token == "20"@ && minutes == 20
    ||| token == "30"@ && minutes == 30
    ||| token == "45"@ && minutes == 45
    ||| token == "60"@ && minutes == 60
    ||| token == "90"@ && minutes == 90
    ||| token == "120"@ && minutes == 120
    ||| token == "180"@ && minutes == 180
    ||| token == "240"@ && minutes == 240
}

// ---------------------------------------------------------------------------
// Corrections, and what is recalled
// ---------------------------------------------------------------------------

/// The three steps after reading are the corrections, the model's intent and the final order
/// that the laws below speak of.
pub proof fn law_steps_after_reading(
    delta: IntentDelta,
    intent: StructuredIntent,
    preferred: Vec<ModeClass>,
    excluded: Vec<ModeClass>,
)
    ensures
        forall|i: &mut NaturalLanguageInterpretation, r: ()| #[trigger]
            call_ensures(apply_intent_delta, (i, &delta), r) ==> corrected(*final(i), *i, delta),
        forall|i: &mut NaturalLanguageInterpretation, r: ()| #[trigger]
            call_ensures(apply_structured_intent, (i, &intent), r) ==> refined(
                *final(i),
                *i,
                intent,
            ),
        forall|i: &mut NaturalLanguageInterpretation, r: ()| #[trigger]
            call_ensures(
                finalize_natural_language_constraints,
                (i, &preferred, &excluded),
                r,
            ) && preferred@.len() == i.modes_preferred@.len() && excluded@.len()
                == i.modes_excluded@.len() ==> finalized(*final(i), *i, preferred@, excluded@),
{
}

/// A correction replaces what it holds a sensible value for and leaves the rest: a party from
/// one to sixty-four, a budget that is not negative, known platforms. What it sets is a hard
/// constraint.
pub proof fn law_corrections_replace_what_they_hold(
    new: NaturalLanguageInterpretation,
    before: NaturalLanguageInterpretation,
    delta: IntentDelta,
)
    requires
        corrected(new, before, delta),
    ensures
        delta.party_size is Some && 1 <= delta.party_size->0 <= 64 ==> new.party_size is Some
            && new.party_size->0 == delta.party_size->0,
        delta.party_size is None || delta.party_size->0 == 0 || delta.party_size->0 > 64
            ==> new.party_size == before.party_size,
        delta.session_minutes_max is Some && delta.session_minutes_max->0 <= 10_000
            ==> new.session_minutes_max is Some && new.session_minutes_max->0
            == delta.session_minutes_max->0,
        delta.session_minutes_max is None ==> new.session_minutes_max == before.session_minutes_max,
        delta.budget_max_each is Some && delta.budget_max_each->0 >= 0 ==> new.max_price_minor
            == delta.budget_max_each && new.currency is Some && (delta.budget_currency is None
            ==> new.currency->0@ == "CNY"@),
        delta.budget_max_each is None || delta.budget_max_each->0 < 0 ==> new.max_price_minor
            == before.max_price_minor,
        delta.platforms is None ==> views(new.platforms@) == views(before.platforms@),
        new.selected_section == before.selected_section,
        new.demo_only == before.demo_only,
        new.coop_competitive == before.coop_competitive,
{
    if delta.budget_max_each is Some && delta.budget_max_each->0 >= 0 {
        assert(crate::text::opt_view(new.currency) is Some);
    }
}

/// What a model makes of the request goes before the rules only where it says so or where the
/// rules found nothing; a demo that it asks for selects upcoming games.
pub proof fn law_structured_intent_fills_gaps(
    new: NaturalLanguageInterpretation,
    before: NaturalLanguageInterpretation,
    intent: StructuredIntent,
)
    requires
        refined(new, before, intent),
    ensures
        intent.party_size is None ==> new.party_size == before.party_size,
        intent.party_size is Some && before.party_size is None ==> new.party_size
            == intent.party_size,
        intent.party_size is Some && before.party_size is Some && !views(
            intent.hard_constraints@,
        ).contains("party_size"@) ==> new.party_size == before.party_size,
        intent.session_minutes_max is None ==> new.session_minutes_max
            == before.session_minutes_max,
        intent.session_minutes_max is Some && before.session_minutes_max is None
            ==> new.session_minutes_max == intent.session_minutes_max,
        intent.demo_required == Some(true) ==> new.demo_only && new.selected_section == Some(
            FeedSection::Upcoming,
        ) && new.selected_section_explicit,
        intent.demo_required != Some(true) ==> new.demo_only == before.demo_only
            && new.selected_section == before.selected_section,
        !intent.has_budget ==> new.max_price_minor == before.max_price_minor,
        new.intent_confidence == Some(intent.confidence),
{
}

/// Bringing the constraints in order changes neither the party, the session, the platforms, the
/// section nor the budget.
pub proof fn law_finalizing_keeps_what_was_read(
    new: NaturalLanguageInterpretation,
    before: NaturalLanguageInterpretation,
    preferred: Seq<ModeClass>,
    excluded: Seq<ModeClass>,
)
    requires
        finalized(new, before, preferred, excluded),
    ensures
        new.party_size == before.party_size,
        new.session_minutes_max == before.session_minutes_max,
        new.platforms == before.platforms,
        new.demo_only == before.demo_only,
        new.selected_section == before.selected_section,
        new.max_price_minor == before.max_price_minor,
        before.modes_preferred@.len() == 0 ==> new.coop_competitive == before.coop_competitive
            && new.self_hosting_willingness == before.self_hosting_willingness,
{
    assert(views(before.modes_preferred@).len() == before.modes_preferred@.len());
}

/// A request is asked of a model without the white space around it, and only where it has
/// between three and five hundred characters.
pub proof fn law_requests_have_a_length(raw: &str, r: Option<String>)
    requires
        call_ensures(normalized_ai_query, (raw,), r),
    ensures
        r is Some <==> 3 <= trimmed(raw@).len() <= 500,
        r is Some ==> r->0@ == trimmed(raw@),
{
}

/// What is recalled is what was read: the query carries the party, the temper, the session, the
/// budget and the demo, and asks for three hundred games in no particular order.
pub proof fn law_recall_asks_for_what_was_read(i: NaturalLanguageInterpretation, r: FeedQuery)
    requires
        call_ensures(recall_query, (&i,), r),
    ensures
        r.limit == Some(300i64),
        r.page is None && r.cursor is None && r.sort is None && r.order is None,
        r.party_size == i.party_size,
        r.coop_competitive == i.coop_competitive,
        r.self_hosting_willingness == i.self_hosting_willingness,
        r.session_minutes_max == i.session_minutes_max,
        r.max_price_minor == i.max_price_minor,
        r.demo_only == Some(i.demo_only),
        r.platforms is Some <==> i.platforms@.len() > 0,
        r.excluded_modes is Some <==> i.modes_excluded@.len() > 0,
{
    assert(views(i.platforms@).len() == i.platforms@.len());
    assert(views(i.modes_excluded@).len() == i.modes_excluded@.len());
}

/// A section that was asked for is the only one searched; otherwise all four are.
pub proof fn law_recall_searches_the_sections(
    i: NaturalLanguageInterpretation,
    r: Vec<FeedSection>,
    section: FeedSection,
)
    requires
        call_ensures(recall_sections, (&i,), r),
    ensures
        i.selected_section_explicit && i.selected_section is Some ==> (r@.contains(section)
            <==> section == i.selected_section->0) && r@.len() == 1,
        !i.selected_section_explicit || i.selected_section is None ==> r@.contains(section)
            && r@.len() == 4,
{
    if i.selected_section_explicit && i.selected_section is Some {
        assert(r@[0] == i.selected_section->0);
    } else {
        assert(r@[0] == FeedSection::RecentRelease);
        assert(r@[1] == FeedSection::Upcoming);
        assert(r@[2] == FeedSection::PopularLegacy);
        assert(r@[3] == FeedSection::ClassicLegacy);
    }
}

/// The baseline holds what the rules read; a server of one's own is required from a willingness
/// of one half.
pub proof fn law_baseline_is_what_the_rules_read(
    rules: NaturalLanguageInterpretation,
    r: RuleIntentBaseline,
)
    requires
        call_ensures(rule_intent_baseline, (&rules,), r),
    ensures
        r.party_size == rules.party_size,
        r.session_minutes_max == rules.session_minutes_max,
        r.demo_required == rules.demo_only,
        r.coop_competitive == rules.coop_competitive,
        views(r.platforms@) == views(rules.platforms@),
        r.self_hosting_required <==> rules.self_hosting_willingness is Some
            && 0x3fe0_0000_0000_0000 <= rules.self_hosting_willingness->0.key
            <= 0x7ff0_0000_0000_0000,
{
}

proof fn lemma_prefer(raw: Seq<Seq<char>>, classes: Seq<ModeClass>, unapplied: Seq<Seq<char>>)
    requires
        raw.len() == classes.len(),
    ensures
        prefer(raw, classes, unapplied).coop <==> exists|i: int|
            0 <= i < classes.len() && (#[trigger] classes[i]).family is PrivateCoop,
        prefer(raw, classes, unapplied).pvp <==> exists|i: int|
            0 <= i < classes.len() && (#[trigger] classes[i]).family is MatchmadePvp,
        prefer(raw, classes, unapplied).hosting <==> exists|i: int|
            0 <= i < classes.len() && (#[trigger] classes[i]).family is SelfHosted,
    decreases raw.len(),
{
    if raw.len() > 0 {
        let front = classes.drop_last();
        lemma_prefer(raw.drop_last(), front, unapplied);
        let n = classes.len() - 1;
        assert(classes[n] == classes.last());
        assert forall|i: int| 0 <= i < front.len() implies front[i] == #[trigger] classes[i] by {}
        if exists|i: int| 0 <= i < classes.len() && (#[trigger] classes[i]).family is PrivateCoop {
            let i = choose|i: int|
                0 <= i < classes.len() && (#[trigger] classes[i]).family is PrivateCoop;
            if i < n {
                assert(front[i].family is PrivateCoop);
            }
        }
        if exists|i: int| 0 <= i < classes.len() && (#[trigger] classes[i]).family is MatchmadePvp {
            let i = choose|i: int|
                0 <= i < classes.len() && (#[trigger] classes[i]).family is MatchmadePvp;
            if i < n {
                assert(front[i].family is MatchmadePvp);
            }
        }
        if exists|i: int| 0 <= i < classes.len() && (#[trigger] classes[i]).family is SelfHosted {
            let i = choose|i: int|
                0 <= i < classes.len() && (#[trigger] classes[i]).family is SelfHosted;
            if i < n {
                assert(front[i].family is SelfHosted);
            }
        }
        if exists|i: int| 0 <= i < front.len() && (#[trigger] front[i]).family is PrivateCoop {
            let i = choose|i: int|
                0 <= i < front.len() && (#[trigger] front[i]).family is PrivateCoop;
            assert(classes[i].family is PrivateCoop);
        }
        if exists|i: int| 0 <= i < front.len() && (#[trigger] front[i]).family is MatchmadePvp {
            let i = choose|i: int|
                0 <= i < front.len() && (#[trigger] front[i]).family is MatchmadePvp;
            assert(classes[i].family is MatchmadePvp);
        }
        if exists|i: int| 0 <= i < front.len() && (#[trigger] front[i]).family is SelfHosted {
            let i = choose|i: int| 0 <= i < front.len() && (#[trigger] front[i]).family is SelfHosted;
            assert(classes[i].family is SelfHosted);
        }
    }
}

/// A preferred mode sets the temper: playing together 0.1, against strangers 0.85; both at once
/// leave it as it was. A server of one's own that is preferred is wanted in full.
pub proof fn law_preferred_modes_set_the_temper(
    new: NaturalLanguageInterpretation,
    before: NaturalLanguageInterpretation,
    preferred: Seq<ModeClass>,
    excluded: Seq<ModeClass>,
)
    requires
        finalized(new, before, preferred, excluded),
        preferred.len() == before.modes_preferred@.len(),
    ensures
        ({
            let together = exists|i: int|
                0 <= i < preferred.len() && (#[trigger] preferred[i]).family is PrivateCoop;
            let against = exists|i: int|
                0 <= i < preferred.len() && (#[trigger] preferred[i]).family is MatchmadePvp;
            let own = exists|i: int|
                0 <= i < preferred.len() && (#[trigger] preferred[i]).family is SelfHosted;
            &&& together && !against ==> new.coop_competitive == Some(
                (Score { key: 0x3fb9_9999_9999_999a }),
            )
            &&& against && !together ==> new.coop_competitive == Some(
                (Score { key: 0x3feb_3333_3333_3333 }),
            )
            &&& together == against ==> new.coop_competitive == before.coop_competitive
            &&& own ==> new.self_hosting_willingness == Some(
                (Score { key: 0x3ff0_0000_0000_0000 }),
            )
            &&& !own ==> new.self_hosting_willingness == before.self_hosting_willingness
        }),
{
    assert(views(before.modes_preferred@).len() == before.modes_preferred@.len());
    lemma_prefer(views(before.modes_preferred@), preferred, Seq::empty());
}

} // verus!
