//! JSON texts: the candidates and the groups as a model sees them, and the route that a task
//! takes.

use vstd::prelude::*;

use crate::ai::group_advice::{AppVoteCount, GroupAdviceRequest};
use crate::ai::route::{protocol_name, protocol_text, task_name, task_text, ApiProtocol};
use crate::ai::route::{AiTaskType, TaskRouteConfig};
use crate::dbtool::sorted::{sort_texts, sorted_texts};
use crate::numbers::{
    decimal, digit_char, lemma_decimal_injective, lemma_decimal_roundtrip, u64_decimal,
};
use crate::server::enhance::CompactRow;
use crate::text::{
    bool_str, bool_text, is_digit, join, join2, join3, joined, opt_view, views,
};

verus! {

// ---------------------------------------------------------------------------
// Values
// ---------------------------------------------------------------------------

/// A character of a JSON string: a quotation mark, a backslash and the control characters
/// are escaped.
pub open spec fn json_char(c: char) -> Seq<char> {
    if c == '"' {
        seq!['\\', '"']
    } else if c == '\\' {
        seq!['\\', '\\']
    } else if c == '\u{8}' {
        seq!['\\', 'b']
    } else if c == '\t' {
        seq!['\\', 't']
    } else if c == '\n' {
        seq!['\\', 'n']
    } else if c == '\u{c}' {
        seq!['\\', 'f']
    } else if c == '\r' {
        seq!['\\', 'r']
    } else if (c as int) < 32 {
        seq!['\\', 'u', '0', '0', digit_char(c as int / 16), digit_char(c as int % 16)]
    } else {
        seq![c]
    }
}

pub open spec fn json_chars(text: Seq<char>) -> Seq<char>
    decreases text.len(),
{
    if text.len() == 0 {
        Seq::empty()
    } else {
        json_chars(text.drop_last()) + json_char(text.last())
    }
}

/// A text as a JSON string.
pub open spec fn json_string(text: Seq<char>) -> Seq<char> {
    seq!['"'] + json_chars(text) + seq!['"']
}

/// `serde_json::to_string` of a text: the text between quotation marks, with what has to be
/// escaped escaped, and everything else as it is. It never fails.
#[verifier::external_body]
pub(crate) fn quote(text: &str) -> (r: String)
    ensures
        r@ == json_string(text@),
{
    serde_json::to_string(text).unwrap_or_default()
}

pub open spec fn json_strings(texts: Seq<Seq<char>>) -> Seq<Seq<char>> {
    texts.map_values(|text: Seq<char>| json_string(text))
}

/// Texts as a JSON list.
pub open spec fn json_list(texts: Seq<Seq<char>>) -> Seq<char> {
    "["@ + joined(json_strings(texts), ","@) + "]"@
}

pub(crate) fn quote_list(texts: &Vec<String>) -> (r: String)
    ensures
        r@ == json_list(views(texts@)),
{
    let mut quoted: Vec<String> = Vec::new();
    let mut i: usize = 0;
    while i < texts.len()
        invariant
            0 <= i <= texts@.len(),
            views(quoted@) == json_strings(views(texts@)).take(i as int),
        decreases texts@.len() - i,
    {
        let text = quote(texts[i].as_str());
        let ghost before = quoted@;
        quoted.push(text);
        i = i + 1;
        assert(views(quoted@) =~= views(before).push(text@));
        assert(views(quoted@) =~= json_strings(views(texts@)).take(i as int));
    }
    assert(views(quoted@) =~= json_strings(views(texts@)));
    join3("[", join(&quoted, ",").as_str(), "]")
}

/// A text, or nothing, as JSON.
pub open spec fn json_option(text: Option<Seq<char>>) -> Seq<char> {
    match text {
        Some(text) => json_string(text),
        None => "null"@,
    }
}

pub(crate) fn quote_option(text: &Option<String>) -> (r: String)
    ensures
        r@ == json_option(opt_view(*text)),
{
    match text {
        Some(text) => quote(text.as_str()),
        None => "null".to_owned(),
    }
}

pub open spec fn json_number(n: Option<u8>) -> Seq<char> {
    match n {
        Some(n) => decimal(n as nat),
        None => "null"@,
    }
}

pub(crate) fn number_text(n: Option<u8>) -> (r: String)
    ensures
        r@ == json_number(n),
{
    match n {
        Some(n) => u64_decimal(n as u64),
        None => "null".to_owned(),
    }
}

// ---------------------------------------------------------------------------
// Candidates
// ---------------------------------------------------------------------------

/// What a model is shown of a candidate. Nothing in it depends on what was asked, so that
/// requests about the same candidates begin alike.
#[derive(Debug)]
pub struct CandidateFacts {
    pub app_id: u32,
    pub name: String,
    pub section: Option<String>,
    pub release_date: Option<String>,
    pub recommended_min: Option<u8>,
    pub recommended_max: Option<u8>,
    pub dominant_mode: Option<String>,
    pub evidence_ids: Vec<String>,
}

/// The candidate as JSON, its fields in order of their names, and its evidence in order and
/// each once.
pub open spec fn candidate_json(facts: CandidateFacts) -> Seq<char> {
    "{\"app_id\":"@ + decimal(facts.app_id as nat) + ",\"evidence_ids\":"@ + json_list(
        sorted_texts(views(facts.evidence_ids@)),
    ) + ",\"multiplayer\":{\"dominant_mode\":"@ + json_option(opt_view(facts.dominant_mode))
        + "},\"name\":"@ + json_string(facts.name@) + ",\"party\":{\"recommended_max\":"@
        + json_number(facts.recommended_max) + ",\"recommended_min\":"@ + json_number(
        facts.recommended_min,
    ) + "},\"release_date\":"@ + json_option(opt_view(facts.release_date)) + ",\"section\":"@
        + json_option(opt_view(facts.section)) + "}"@
}

pub fn compact_row(facts: &CandidateFacts) -> (r: CompactRow)
    ensures
        r.app_id == facts.app_id,
        r.json@ == candidate_json(*facts),
{
    let evidence = sort_texts(&facts.evidence_ids);
    let mut json = "{\"app_id\":".to_owned();
    json.append(u64_decimal(facts.app_id as u64).as_str());
    json.append(",\"evidence_ids\":");
    json.append(quote_list(&evidence).as_str());
    json.append(",\"multiplayer\":{\"dominant_mode\":");
    json.append(quote_option(&facts.dominant_mode).as_str());
    json.append("},\"name\":");
    json.append(quote(facts.name.as_str()).as_str());
    json.append(",\"party\":{\"recommended_max\":");
    json.append(number_text(facts.recommended_max).as_str());
    json.append(",\"recommended_min\":");
    json.append(number_text(facts.recommended_min).as_str());
    json.append("},\"release_date\":");
    json.append(quote_option(&facts.release_date).as_str());
    json.append(",\"section\":");
    json.append(quote_option(&facts.section).as_str());
    json.append("}");
    CompactRow { app_id: facts.app_id as u64, json }
}

// ---------------------------------------------------------------------------
// Groups
// ---------------------------------------------------------------------------

/// A candidate of a group, with the evidence that stands for it.
pub open spec fn choice_json(app_id: u32) -> Seq<char> {
    "{\"app_id\":"@ + decimal(app_id as nat) + ",\"evidence_id\":"@ + json_string(
        "candidate:"@ + decimal(app_id as nat),
    ) + "}"@
}

pub open spec fn choices_json(ids: Seq<u32>) -> Seq<Seq<char>> {
    ids.map_values(|id: u32| choice_json(id))
}

fn choice_texts(ids: &Vec<u32>) -> (r: Vec<String>)
    ensures
        views(r@) == choices_json(ids@),
{
    let mut out: Vec<String> = Vec::new();
    let mut i: usize = 0;
    while i < ids.len()
        invariant
            0 <= i <= ids@.len(),
            views(out@) == choices_json(ids@).take(i as int),
        decreases ids@.len() - i,
    {
        let id = u64_decimal(ids[i] as u64);
        let evidence = join2("candidate:", id.as_str());
        let mut json = join3("{\"app_id\":", id.as_str(), ",\"evidence_id\":");
        json.append(quote(evidence.as_str()).as_str());
        json.append("}");
        let ghost before = out@;
        out.push(json);
        i = i + 1;
        assert(views(out@) =~= views(before).push(json@));
        assert(views(out@) =~= choices_json(ids@).take(i as int));
    }
    assert(views(out@) =~= choices_json(ids@));
    out
}

/// A row of the tally, with the evidence that stands for it.
pub open spec fn vote_json(row: AppVoteCount) -> Seq<char> {
    "{\"app_id\":"@ + decimal(row.app_id as nat) + ",\"evidence_id\":"@ + json_string(
        "vote:aggregate:"@ + decimal(row.app_id as nat),
    ) + ",\"votes\":"@ + decimal(row.votes as nat) + "}"@
}

pub open spec fn votes_json(votes: Seq<AppVoteCount>) -> Seq<Seq<char>> {
    votes.map_values(|row: AppVoteCount| vote_json(row))
}

fn vote_texts(votes: &Vec<AppVoteCount>) -> (r: Vec<String>)
    ensures
        views(r@) == votes_json(votes@),
{
    let mut out: Vec<String> = Vec::new();
    let mut i: usize = 0;
    while i < votes.len()
        invariant
            0 <= i <= votes@.len(),
            views(out@) == votes_json(votes@).take(i as int),
        decreases votes@.len() - i,
    {
        let id = u64_decimal(votes[i].app_id as u64);
        let evidence = join2("vote:aggregate:", id.as_str());
        let mut json = join3("{\"app_id\":", id.as_str(), ",\"evidence_id\":");
        json.append(quote(evidence.as_str()).as_str());
        json.append(",\"votes\":");
        json.append(u64_decimal(votes[i].votes as u64).as_str());
        json.append("}");
        let ghost before = out@;
        out.push(json);
        i = i + 1;
        assert(views(out@) =~= views(before).push(json@));
        assert(views(out@) =~= votes_json(votes@).take(i as int));
    }
    assert(views(out@) =~= votes_json(votes@));
    out
}

/// What a group asks for, as JSON: sums over its members, and nobody's own.
pub open spec fn group_json(q: GroupAdviceRequest) -> Seq<char> {
    "{\"candidates\":["@ + joined(choices_json(q.candidate_app_ids@), ","@)
        + "],\"modes_excluded\":"@ + json_list(views(q.modes_excluded@)) + ",\"modes_preferred\":"@
        + json_list(views(q.modes_preferred@)) + ",\"party_size\":"@ + json_number(q.party_size)
        + ",\"platforms\":"@ + json_list(views(q.platforms@)) + ",\"vote_counts\":["@ + joined(
        votes_json(q.vote_counts@),
        ","@,
    ) + "]}"@
}

pub fn group_facts_json(q: &GroupAdviceRequest) -> (r: String)
    ensures
        r@ == group_json(*q),
{
    let mut json = "{\"candidates\":[".to_owned();
    json.append(join(&choice_texts(&q.candidate_app_ids), ",").as_str());
    json.append("],\"modes_excluded\":");
    json.append(quote_list(&q.modes_excluded).as_str());
    json.append(",\"modes_preferred\":");
    json.append(quote_list(&q.modes_preferred).as_str());
    json.append(",\"party_size\":");
    json.append(number_text(q.party_size).as_str());
    json.append(",\"platforms\":");
    json.append(quote_list(&q.platforms).as_str());
    json.append(",\"vote_counts\":[");
    json.append(join(&vote_texts(&q.vote_counts), ",").as_str());
    json.append("]}");
    json
}

// ---------------------------------------------------------------------------
// Routes
// ---------------------------------------------------------------------------

pub open spec fn protocol_names(protocols: Seq<ApiProtocol>) -> Seq<Seq<char>> {
    protocols.map_values(|protocol: ApiProtocol| protocol_name(protocol))
}

fn protocol_texts(protocols: &Vec<ApiProtocol>) -> (r: Vec<String>)
    ensures
        views(r@) == protocol_names(protocols@),
{
    let mut names: Vec<String> = Vec::new();
    let mut i: usize = 0;
    while i < protocols.len()
        invariant
            0 <= i <= protocols@.len(),
            views(names@) == protocol_names(protocols@).take(i as int),
        decreases protocols@.len() - i,
    {
        let name = protocol_text(protocols[i]).to_owned();
        let ghost before = names@;
        names.push(name);
        i = i + 1;
        assert(views(names@) =~= views(before).push(name@));
        assert(views(names@) =~= protocol_names(protocols@).take(i as int));
    }
    assert(views(names@) =~= protocol_names(protocols@));
    names
}

/// The route of a task as JSON, or that the task goes to the provider directly.
pub open spec fn route_json(route: Option<TaskRouteConfig>, task: AiTaskType) -> Seq<char> {
    match route {
        Some(route) => "{\"enabled\":"@ + bool_text(route.enabled) + ",\"fallback_models\":"@
            + json_list(views(route.fallback_models@)) + ",\"max_output_tokens\":"@ + decimal(
            route.max_output_tokens as nat,
        ) + ",\"primary_model\":"@ + json_string(route.primary_model@)
            + ",\"protocol_preference\":"@ + json_list(protocol_names(route.protocol_preference@))
            + ",\"route_version\":"@ + json_string(route.route_version@) + ",\"task\":"@
            + json_string(task_name(task)) + ",\"timeout_ms\":"@ + decimal(
            (route.timeout_secs * 1_000) as nat,
        ) + "}"@,
        None => "{\"route\":\"direct\",\"task\":"@ + json_string(task_name(task)) + "}"@,
    }
}

/// Everything that an answer depends on but what was asked: the provider, and the route that
/// the task takes through it.
pub open spec fn identity_json(
    provider_identity: Seq<char>,
    route: Option<TaskRouteConfig>,
    task: AiTaskType,
) -> Seq<char> {
    "{\"provider\":"@ + json_string(provider_identity) + ",\"route\":"@ + route_json(route, task)
        + "}"@
}

pub open spec fn deref_route(route: Option<&TaskRouteConfig>) -> Option<TaskRouteConfig> {
    match route {
        Some(route) => Some(*route),
        None => None,
    }
}

pub fn route_identity_json(
    provider_identity: &str,
    route: Option<&TaskRouteConfig>,
    task: AiTaskType,
) -> (r: String)
    requires
        route is Some ==> route->0.timeout_secs * 1_000 <= u64::MAX,
    ensures
        r@ == identity_json(provider_identity@, deref_route(route), task),
{
    let mut json = "{\"provider\":".to_owned();
    json.append(quote(provider_identity).as_str());
    json.append(",\"route\":");
    let ghost head = json@;
    match route {
        Some(route) => {
            let protocols = protocol_texts(&route.protocol_preference);
            let mut text = "{\"enabled\":".to_owned();
            text.append(bool_str(route.enabled));
            text.append(",\"fallback_models\":");
            text.append(quote_list(&route.fallback_models).as_str());
            text.append(",\"max_output_tokens\":");
            text.append(u64_decimal(route.max_output_tokens as u64).as_str());
            text.append(",\"primary_model\":");
            text.append(quote(route.primary_model.as_str()).as_str());
            text.append(",\"protocol_preference\":");
            text.append(quote_list(&protocols).as_str());
            text.append(",\"route_version\":");
            text.append(quote(route.route_version.as_str()).as_str());
            text.append(",\"task\":");
            text.append(quote(task_text(task)).as_str());
            text.append(",\"timeout_ms\":");
            text.append(u64_decimal(route.timeout_secs * 1_000).as_str());
            text.append("}");
            json.append(text.as_str());
        },
        None => {
            let text = join3("{\"route\":\"direct\",\"task\":", quote(task_text(task)).as_str(), "}");
            json.append(text.as_str());
        },
    }
    assert(json@ =~= head + route_json(deref_route(route), task));
    json.append("}");
    json
}

// ---------------------------------------------------------------------------
// What the texts tell
// ---------------------------------------------------------------------------

proof fn lemma_same_after(front: Seq<char>, x: Seq<char>, y: Seq<char>)
    requires
        front + x == front + y,
    ensures
        x == y,
{
    assert(x =~= (front + x).skip(front.len() as int));
    assert(y =~= (front + y).skip(front.len() as int));
}

proof fn lemma_chars_from_start(text: Seq<char>)
    requires
        text.len() > 0,
    ensures
        json_chars(text) == json_char(text[0]) + json_chars(text.skip(1)),
    decreases text.len(),
{
    reveal_with_fuel(json_chars, 2);
    if text.len() == 1 {
        assert(text.drop_last() =~= Seq::empty());
        assert(text.skip(1) =~= Seq::empty());
        assert(json_chars(text) =~= json_char(text[0]) + json_chars(text.skip(1)));
    } else {
        lemma_chars_from_start(text.drop_last());
        assert(text.drop_last().skip(1) =~= text.skip(1).drop_last());
        assert(json_chars(text) =~= json_char(text[0]) + json_chars(text.skip(1)));
    }
}

/// No escaped character is the start of another.
proof fn lemma_char_tells(a: char, b: char, x: Seq<char>, y: Seq<char>)
    requires
        json_char(a) + x == json_char(b) + y,
    ensures
        a == b,
        x == y,
{
    let of_a = json_char(a) + x;
    let of_b = json_char(b) + y;
    assert(of_a[0] == json_char(a)[0] && of_b[0] == json_char(b)[0]);
    if json_char(a).len() > 1 {
        assert(of_a[1] == json_char(a)[1]);
    }
    if json_char(b).len() > 1 {
        assert(of_b[1] == json_char(b)[1]);
    }
    if json_char(a).len() == 6 && json_char(b).len() == 6 {
        assert(of_a[4] == json_char(a)[4] && of_b[4] == json_char(b)[4]);
        assert(of_a[5] == json_char(a)[5] && of_b[5] == json_char(b)[5]);
    }
    assert(a == b);
    lemma_same_after(json_char(a), x, y);
}

/// A JSON string ends where it says, and tells its text.
pub proof fn lemma_json_string_tells(a: Seq<char>, b: Seq<char>, x: Seq<char>, y: Seq<char>)
    requires
        json_string(a) + x == json_string(b) + y,
    ensures
        a == b,
        x == y,
{
    let rest_a = json_chars(a) + (seq!['"'] + x);
    let rest_b = json_chars(b) + (seq!['"'] + y);
    assert(json_string(a) + x =~= seq!['"'] + rest_a);
    assert(json_string(b) + y =~= seq!['"'] + rest_b);
    lemma_same_after(seq!['"'], rest_a, rest_b);
    lemma_json_chars_tell(a, b, x, y);
}

proof fn lemma_json_chars_tell(a: Seq<char>, b: Seq<char>, x: Seq<char>, y: Seq<char>)
    requires
        json_chars(a) + (seq!['"'] + x) == json_chars(b) + (seq!['"'] + y),
    ensures
        a == b,
        x == y,
    decreases a.len(),
{
    let rest_a = json_chars(a) + (seq!['"'] + x);
    let rest_b = json_chars(b) + (seq!['"'] + y);
    if a.len() > 0 {
        lemma_chars_from_start(a);
        assert(json_char(a[0])[0] != '"');
        assert(rest_a[0] == json_char(a[0])[0]);
    }
    if b.len() > 0 {
        lemma_chars_from_start(b);
        assert(json_char(b[0])[0] != '"');
        assert(rest_b[0] == json_char(b[0])[0]);
    }
    if a.len() == 0 && b.len() == 0 {
        assert(rest_a =~= seq!['"'] + x);
        assert(rest_b =~= seq!['"'] + y);
        lemma_same_after(seq!['"'], x, y);
        assert(a =~= b);
    } else if a.len() == 0 {
        assert(rest_a[0] == '"');
    } else if b.len() == 0 {
        assert(rest_b[0] == '"');
    } else {
        let next_a = json_chars(a.skip(1)) + (seq!['"'] + x);
        let next_b = json_chars(b.skip(1)) + (seq!['"'] + y);
        assert(rest_a =~= json_char(a[0]) + next_a);
        assert(rest_b =~= json_char(b[0]) + next_b);
        lemma_char_tells(a[0], b[0], next_a, next_b);
        lemma_json_chars_tell(a.skip(1), b.skip(1), x, y);
        assert(a =~= seq![a[0]] + a.skip(1));
        assert(b =~= seq![b[0]] + b.skip(1));
    }
}

proof fn lemma_joined_from_start(parts: Seq<Seq<char>>, sep: Seq<char>)
    requires
        parts.len() >= 2,
    ensures
        joined(parts, sep) == parts[0] + (sep + joined(parts.skip(1), sep)),
    decreases parts.len(),
{
    reveal_with_fuel(joined, 2);
    if parts.len() == 2 {
        assert(parts.drop_last()[0] == parts[0]);
        assert(parts.skip(1)[0] == parts[1]);
        assert(joined(parts, sep) =~= parts[0] + (sep + joined(parts.skip(1), sep)));
    } else {
        lemma_joined_from_start(parts.drop_last(), sep);
        assert(parts.drop_last().skip(1) =~= parts.skip(1).drop_last());
        assert(joined(parts, sep) =~= parts[0] + (sep + joined(parts.skip(1), sep)));
    }
}

/// What follows the first text of a list.
spec fn list_rest(texts: Seq<Seq<char>>, x: Seq<char>) -> Seq<char> {
    if texts.len() == 1 {
        "]"@ + x
    } else {
        ","@ + (joined(json_strings(texts.skip(1)), ","@) + ("]"@ + x))
    }
}

proof fn lemma_list_from_start(texts: Seq<Seq<char>>, x: Seq<char>)
    requires
        texts.len() > 0,
    ensures
        joined(json_strings(texts), ","@) + ("]"@ + x) == json_string(texts[0]) + list_rest(
            texts,
            x,
        ),
{
    if texts.len() >= 2 {
        let quoted = json_strings(texts);
        lemma_joined_from_start(quoted, ","@);
        assert(quoted.skip(1) =~= json_strings(texts.skip(1)));
        assert(joined(quoted, ","@) + ("]"@ + x) =~= json_string(texts[0]) + list_rest(texts, x));
    }
}

proof fn lemma_json_items_tell(
    a: Seq<Seq<char>>,
    b: Seq<Seq<char>>,
    x: Seq<char>,
    y: Seq<char>,
)
    requires
        a.len() > 0,
        b.len() > 0,
        joined(json_strings(a), ","@) + ("]"@ + x) == joined(json_strings(b), ","@) + ("]"@ + y),
    ensures
        a == b,
        x == y,
    decreases a.len(),
{
    lemma_list_from_start(a, x);
    lemma_list_from_start(b, y);
    lemma_json_string_tells(a[0], b[0], list_rest(a, x), list_rest(b, y));
    reveal_strlit(",");
    reveal_strlit("]");
    if a.len() == 1 && b.len() == 1 {
        lemma_same_after("]"@, x, y);
        assert(a =~= b);
    } else if a.len() == 1 {
        assert(list_rest(a, x)[0] == ']' && list_rest(b, y)[0] == ',');
    } else if b.len() == 1 {
        assert(list_rest(b, y)[0] == ']' && list_rest(a, x)[0] == ',');
    } else {
        lemma_same_after(
            ","@,
            joined(json_strings(a.skip(1)), ","@) + ("]"@ + x),
            joined(json_strings(b.skip(1)), ","@) + ("]"@ + y),
        );
        lemma_json_items_tell(a.skip(1), b.skip(1), x, y);
        assert(a =~= seq![a[0]] + a.skip(1));
        assert(b =~= seq![b[0]] + b.skip(1));
    }
}

/// A JSON list of texts ends where it says, and tells its texts.
pub proof fn lemma_json_list_tells(
    a: Seq<Seq<char>>,
    b: Seq<Seq<char>>,
    x: Seq<char>,
    y: Seq<char>,
)
    requires
        json_list(a) + x == json_list(b) + y,
    ensures
        a == b,
        x == y,
{
    let items_a = joined(json_strings(a), ","@) + ("]"@ + x);
    let items_b = joined(json_strings(b), ","@) + ("]"@ + y);
    assert(json_list(a) + x =~= "["@ + items_a);
    assert(json_list(b) + y =~= "["@ + items_b);
    lemma_same_after("["@, items_a, items_b);
    reveal_strlit("]");
    if a.len() > 0 {
        lemma_list_from_start(a, x);
        assert(items_a[0] == '"');
    } else {
        assert(items_a =~= "]"@ + x);
    }
    if b.len() > 0 {
        lemma_list_from_start(b, y);
        assert(items_b[0] == '"');
    } else {
        assert(items_b =~= "]"@ + y);
    }
    if a.len() == 0 && b.len() == 0 {
        lemma_same_after("]"@, x, y);
        assert(a =~= b);
    } else if a.len() > 0 && b.len() > 0 {
        lemma_json_items_tell(a, b, x, y);
    }
}

/// A number that something else follows tells its value.
proof fn lemma_number_tells(a: nat, b: nat, x: Seq<char>, y: Seq<char>)
    requires
        decimal(a) + x == decimal(b) + y,
        x.len() > 0,
        y.len() > 0,
        !is_digit(x[0]),
        !is_digit(y[0]),
    ensures
        a == b,
        x == y,
{
    lemma_decimal_roundtrip(a, a);
    lemma_decimal_roundtrip(b, b);
    let of_a = decimal(a) + x;
    let of_b = decimal(b) + y;
    let n = decimal(a).len() as int;
    let m = decimal(b).len() as int;
    if n < m {
        assert(of_a[n] == x[0] && of_b[n] == decimal(b)[n]);
        assert(is_digit(decimal(b)[n]));
    } else if m < n {
        assert(of_b[m] == y[0] && of_a[m] == decimal(a)[m]);
        assert(is_digit(decimal(a)[m]));
    }
    assert(decimal(a) =~= of_a.take(n));
    assert(decimal(b) =~= of_b.take(n));
    lemma_decimal_injective(a, b);
    lemma_same_after(decimal(a), x, y);
}

proof fn lemma_flag_tells(a: bool, b: bool, x: Seq<char>, y: Seq<char>)
    requires
        bool_text(a) + x == bool_text(b) + y,
    ensures
        a == b,
        x == y,
{
    reveal_strlit("true");
    reveal_strlit("false");
    assert((bool_text(a) + x)[0] == bool_text(a)[0]);
    assert((bool_text(b) + y)[0] == bool_text(b)[0]);
    lemma_same_after(bool_text(a), x, y);
}

/// What follows the models of a route.
spec fn after_models(route: TaskRouteConfig, task: AiTaskType) -> Seq<char> {
    ",\"protocol_preference\":"@ + (json_list(protocol_names(route.protocol_preference@)) + (
    ",\"route_version\":"@ + (json_string(route.route_version@) + (",\"task\":"@ + (json_string(
        task_name(task),
    ) + (",\"timeout_ms\":"@ + (decimal((route.timeout_secs * 1_000) as nat) + ("}"@ + "}"@))))))))
}

spec fn route_and_end(route: TaskRouteConfig, task: AiTaskType) -> Seq<char> {
    "{\"enabled\":"@ + (bool_text(route.enabled) + (",\"fallback_models\":"@ + (json_list(
        views(route.fallback_models@),
    ) + (",\"max_output_tokens\":"@ + (decimal(route.max_output_tokens as nat) + (
    ",\"primary_model\":"@ + (json_string(route.primary_model@) + after_models(route, task))))))))
}

proof fn lemma_grouped(a: Seq<char>, b: Seq<char>, c: Seq<char>)
    ensures
        a + b + c == a + (b + c),
{
    assert(a + b + c =~= a + (b + c));
}

proof fn lemma_field_grouped(before: Seq<char>, key: Seq<char>, value: Seq<char>, rest: Seq<char>)
    ensures
        before + key + value + rest == before + (key + (value + rest)),
{
    lemma_grouped(before + key, value, rest);
    lemma_grouped(before, key, value + rest);
}

proof fn lemma_route_in_parts(route: TaskRouteConfig, task: AiTaskType)
    ensures
        route_json(Some(route), task) + "}"@ == route_and_end(route, task),
{
    let fallbacks = json_list(views(route.fallback_models@));
    let tokens = decimal(route.max_output_tokens as nat);
    let primary = json_string(route.primary_model@);
    let protocols = json_list(protocol_names(route.protocol_preference@));
    let version = json_string(route.route_version@);
    let named = json_string(task_name(task));
    let timeout = decimal((route.timeout_secs * 1_000) as nat);
    let to_enabled = "{\"enabled\":"@ + bool_text(route.enabled);
    let to_fallbacks = to_enabled + ",\"fallback_models\":"@ + fallbacks;
    let to_tokens = to_fallbacks + ",\"max_output_tokens\":"@ + tokens;
    let to_primary = to_tokens + ",\"primary_model\":"@ + primary;
    let to_protocols = to_primary + ",\"protocol_preference\":"@ + protocols;
    let to_version = to_protocols + ",\"route_version\":"@ + version;
    let to_task = to_version + ",\"task\":"@ + named;
    let to_timeout = to_task + ",\"timeout_ms\":"@ + timeout;
    let rest = "}"@ + "}"@;
    lemma_grouped(to_timeout, "}"@, "}"@);
    lemma_field_grouped(to_task, ",\"timeout_ms\":"@, timeout, rest);
    let rest = ",\"timeout_ms\":"@ + (timeout + rest);
    lemma_field_grouped(to_version, ",\"task\":"@, named, rest);
    let rest = ",\"task\":"@ + (named + rest);
    lemma_field_grouped(to_protocols, ",\"route_version\":"@, version, rest);
    let rest = ",\"route_version\":"@ + (version + rest);
    lemma_field_grouped(to_primary, ",\"protocol_preference\":"@, protocols, rest);
    let rest = ",\"protocol_preference\":"@ + (protocols + rest);
    lemma_field_grouped(to_tokens, ",\"primary_model\":"@, primary, rest);
    let rest = ",\"primary_model\":"@ + (primary + rest);
    lemma_field_grouped(to_fallbacks, ",\"max_output_tokens\":"@, tokens, rest);
    let rest = ",\"max_output_tokens\":"@ + (tokens + rest);
    lemma_field_grouped(to_enabled, ",\"fallback_models\":"@, fallbacks, rest);
    let rest = ",\"fallback_models\":"@ + (fallbacks + rest);
    lemma_grouped("{\"enabled\":"@, bool_text(route.enabled), rest);
}

proof fn lemma_identity_in_parts(
    provider_identity: Seq<char>,
    route: TaskRouteConfig,
    task: AiTaskType,
)
    ensures
        identity_json(provider_identity, Some(route), task) == "{\"provider\":"@ + (json_string(
            provider_identity,
        ) + (",\"route\":"@ + route_and_end(route, task))),
{
    let ended = route_json(Some(route), task) + "}"@;
    lemma_route_in_parts(route, task);
    let provider = json_string(provider_identity);
    lemma_field_grouped(
        "{\"provider\":"@ + provider,
        ",\"route\":"@,
        route_json(Some(route), task),
        "}"@,
    );
    lemma_grouped("{\"provider\":"@, provider, ",\"route\":"@ + ended);
}

proof fn lemma_models_tell(a: TaskRouteConfig, b: TaskRouteConfig, s: AiTaskType, t: AiTaskType)
    requires
        route_and_end(a, s) == route_and_end(b, t),
    ensures
        a.enabled == b.enabled,
        views(a.fallback_models@) == views(b.fallback_models@),
        a.max_output_tokens == b.max_output_tokens,
        a.primary_model@ == b.primary_model@,
        after_models(a, s) == after_models(b, t),
{
    reveal_strlit(",\"primary_model\":");
    let primary_a = json_string(a.primary_model@) + after_models(a, s);
    let primary_b = json_string(b.primary_model@) + after_models(b, t);
    let tokens_a = decimal(a.max_output_tokens as nat) + (",\"primary_model\":"@ + primary_a);
    let tokens_b = decimal(b.max_output_tokens as nat) + (",\"primary_model\":"@ + primary_b);
    let models_a = json_list(views(a.fallback_models@)) + (",\"max_output_tokens\":"@ + tokens_a);
    let models_b = json_list(views(b.fallback_models@)) + (",\"max_output_tokens\":"@ + tokens_b);
    let flag_a = bool_text(a.enabled) + (",\"fallback_models\":"@ + models_a);
    let flag_b = bool_text(b.enabled) + (",\"fallback_models\":"@ + models_b);
    lemma_same_after("{\"enabled\":"@, flag_a, flag_b);
    lemma_flag_tells(
        a.enabled,
        b.enabled,
        ",\"fallback_models\":"@ + models_a,
        ",\"fallback_models\":"@ + models_b,
    );
    lemma_same_after(",\"fallback_models\":"@, models_a, models_b);
    lemma_json_list_tells(
        views(a.fallback_models@),
        views(b.fallback_models@),
        ",\"max_output_tokens\":"@ + tokens_a,
        ",\"max_output_tokens\":"@ + tokens_b,
    );
    lemma_same_after(",\"max_output_tokens\":"@, tokens_a, tokens_b);
    lemma_number_tells(
        a.max_output_tokens as nat,
        b.max_output_tokens as nat,
        ",\"primary_model\":"@ + primary_a,
        ",\"primary_model\":"@ + primary_b,
    );
    lemma_same_after(",\"primary_model\":"@, primary_a, primary_b);
    lemma_json_string_tells(
        a.primary_model@,
        b.primary_model@,
        after_models(a, s),
        after_models(b, t),
    );
}

proof fn lemma_rest_tells(a: TaskRouteConfig, b: TaskRouteConfig, s: AiTaskType, t: AiTaskType)
    requires
        after_models(a, s) == after_models(b, t),
    ensures
        protocol_names(a.protocol_preference@) == protocol_names(b.protocol_preference@),
        a.route_version@ == b.route_version@,
        task_name(s) == task_name(t),
        a.timeout_secs == b.timeout_secs,
{
    reveal_strlit("}");
    let end = "}"@ + "}"@;
    let time_a = decimal((a.timeout_secs * 1_000) as nat) + end;
    let time_b = decimal((b.timeout_secs * 1_000) as nat) + end;
    let task_a = json_string(task_name(s)) + (",\"timeout_ms\":"@ + time_a);
    let task_b = json_string(task_name(t)) + (",\"timeout_ms\":"@ + time_b);
    let version_a = json_string(a.route_version@) + (",\"task\":"@ + task_a);
    let version_b = json_string(b.route_version@) + (",\"task\":"@ + task_b);
    let names_a = protocol_names(a.protocol_preference@);
    let names_b = protocol_names(b.protocol_preference@);
    lemma_same_after(
        ",\"protocol_preference\":"@,
        json_list(names_a) + (",\"route_version\":"@ + version_a),
        json_list(names_b) + (",\"route_version\":"@ + version_b),
    );
    lemma_json_list_tells(
        names_a,
        names_b,
        ",\"route_version\":"@ + version_a,
        ",\"route_version\":"@ + version_b,
    );
    lemma_same_after(",\"route_version\":"@, version_a, version_b);
    lemma_json_string_tells(
        a.route_version@,
        b.route_version@,
        ",\"task\":"@ + task_a,
        ",\"task\":"@ + task_b,
    );
    lemma_same_after(",\"task\":"@, task_a, task_b);
    lemma_json_string_tells(
        task_name(s),
        task_name(t),
        ",\"timeout_ms\":"@ + time_a,
        ",\"timeout_ms\":"@ + time_b,
    );
    lemma_same_after(",\"timeout_ms\":"@, time_a, time_b);
    lemma_number_tells(
        (a.timeout_secs * 1_000) as nat,
        (b.timeout_secs * 1_000) as nat,
        end,
        end,
    );
}

/// The text behind a cache identity tells the provider, the chain of models, and everything
/// else that the route says: two routes that differ anywhere have different texts.
pub proof fn lemma_identity_tells_the_route(
    provider_a: Seq<char>,
    provider_b: Seq<char>,
    a: TaskRouteConfig,
    b: TaskRouteConfig,
    s: AiTaskType,
    t: AiTaskType,
)
    requires
        identity_json(provider_a, Some(a), s) == identity_json(provider_b, Some(b), t),
    ensures
        provider_a == provider_b,
        a.primary_model@ == b.primary_model@,
        views(a.fallback_models@) == views(b.fallback_models@),
        a.enabled == b.enabled,
        a.max_output_tokens == b.max_output_tokens,
        protocol_names(a.protocol_preference@) == protocol_names(b.protocol_preference@),
        a.route_version@ == b.route_version@,
        task_name(s) == task_name(t),
        a.timeout_secs == b.timeout_secs,
{
    lemma_identity_in_parts(provider_a, a, s);
    lemma_identity_in_parts(provider_b, b, t);
    let rest_a = ",\"route\":"@ + route_and_end(a, s);
    let rest_b = ",\"route\":"@ + route_and_end(b, t);
    lemma_same_after(
        "{\"provider\":"@,
        json_string(provider_a) + rest_a,
        json_string(provider_b) + rest_b,
    );
    lemma_json_string_tells(provider_a, provider_b, rest_a, rest_b);
    lemma_same_after(",\"route\":"@, route_and_end(a, s), route_and_end(b, t));
    lemma_models_tell(a, b, s, t);
    lemma_rest_tells(a, b, s, t);
}

}
