//! The facts about the games of a comparison: loading them, which of them are known, and the
//! matrix that the model is shown.

use vstd::prelude::*;

use crate::numbers::{decimal, i64_decimal, int_decimal, u64_decimal};
use crate::server::ai_requests::{fact_evidence, fact_evidence_id, CompareFacts};
use crate::server::errors::{api_error, ApiError};
use crate::server::model_json::{
    json_number, json_option, json_string, number_text, quote, quote_option,
};
use crate::text::{bool_str, bool_text, join, join3, joined, opt_view, views};

verus! {

/// What is known of how a game is played together.
#[derive(Debug)]
pub struct CompareProfile {
    pub recommended_min_players: Option<u8>,
    pub recommended_max_players: Option<u8>,
    pub dominant_mode: Option<String>,
    pub private_session: Option<bool>,
    pub online_coop: Option<bool>,
    pub crossplay: Option<bool>,
    pub self_hosted_server: Option<bool>,
    pub drop_in_out: Option<bool>,
}

/// What is stored of a game, with its profile where there is one.
#[derive(Debug)]
pub struct StoredGame {
    pub name: String,
    pub release_state: String,
    pub release_date: Option<String>,
    pub is_early_access: Option<bool>,
    pub updated_at_ms: i64,
    pub profile: Option<CompareProfile>,
}

/// What came of looking for a game.
#[derive(Debug)]
pub enum CompareLookup {
    Failed,
    Missing,
    Found(StoredGame),
}

// ---------------------------------------------------------------------------
// Which facts are known
// ---------------------------------------------------------------------------

/// A fact is known where one of the fields that it rests on is.
pub open spec fn facts_of(app_id: u32, profile: Option<CompareProfile>) -> CompareFacts {
    match profile {
        Some(p) => CompareFacts {
            app_id,
            party_size: p.recommended_min_players is Some || p.recommended_max_players is Some,
            multiplayer_mode: p.dominant_mode is Some || p.online_coop is Some
                || p.crossplay is Some || p.drop_in_out is Some,
            service_dependency: p.private_session is Some || p.self_hosted_server is Some,
        },
        None => CompareFacts {
            app_id,
            party_size: false,
            multiplayer_mode: false,
            service_dependency: false,
        },
    }
}

pub fn compare_facts(app_id: u32, profile: Option<&CompareProfile>) -> (r: CompareFacts)
    ensures
        r == facts_of(
            app_id,
            match profile {
                Some(profile) => Some(*profile),
                None => None,
            },
        ),
{
    match profile {
        Some(p) => CompareFacts {
            app_id,
            party_size: p.recommended_min_players.is_some() || p.recommended_max_players.is_some(),
            multiplayer_mode: p.dominant_mode.is_some() || p.online_coop.is_some()
                || p.crossplay.is_some() || p.drop_in_out.is_some(),
            service_dependency: p.private_session.is_some() || p.self_hosted_server.is_some(),
        },
        None => CompareFacts {
            app_id,
            party_size: false,
            multiplayer_mode: false,
            service_dependency: false,
        },
    }
}

// ---------------------------------------------------------------------------
// A row of the matrix as JSON
// ---------------------------------------------------------------------------

pub open spec fn json_flag(flag: Option<bool>) -> Seq<char> {
    match flag {
        Some(flag) => bool_text(flag),
        None => "null"@,
    }
}

fn flag_text(flag: Option<bool>) -> (r: &'static str)
    ensures
        r@ == json_flag(flag),
{
    match flag {
        Some(flag) => bool_str(flag),
        None => "null",
    }
}

/// The evidence for a column, if there is any.
pub open spec fn evidence_entry(known: bool, head: Seq<char>, id: Seq<char>) -> Seq<char> {
    if known {
        head + json_string(id)
    } else {
        Seq::empty()
    }
}

/// The evidence for each known column.
pub open spec fn evidence_json(facts: CompareFacts) -> Seq<char> {
    "{\"data_updated_at\":"@ + json_string(fact_evidence(facts.app_id, "data_updated_at"@))
        + evidence_entry(
        facts.multiplayer_mode,
        ",\"multiplayer_mode\":"@,
        fact_evidence(facts.app_id, "multiplayer_mode"@),
    ) + evidence_entry(
        facts.party_size,
        ",\"party_size\":"@,
        fact_evidence(facts.app_id, "party_size"@),
    ) + evidence_entry(
        facts.service_dependency,
        ",\"service_dependency\":"@,
        fact_evidence(facts.app_id, "service_dependency"@),
    ) + "}"@
}

fn evidence_text(facts: &CompareFacts) -> (r: String)
    ensures
        r@ == evidence_json(*facts),
{
    let mut json = "{\"data_updated_at\":".to_owned();
    json.append(quote(fact_evidence_id(facts.app_id, "data_updated_at").as_str()).as_str());
    let ghost start = json@;
    if facts.multiplayer_mode {
        json.append(",\"multiplayer_mode\":");
        json.append(quote(fact_evidence_id(facts.app_id, "multiplayer_mode").as_str()).as_str());
    }
    let ghost mode = evidence_entry(
        facts.multiplayer_mode,
        ",\"multiplayer_mode\":"@,
        fact_evidence(facts.app_id, "multiplayer_mode"@),
    );
    assert(json@ =~= start + mode);
    if facts.party_size {
        json.append(",\"party_size\":");
        json.append(quote(fact_evidence_id(facts.app_id, "party_size").as_str()).as_str());
    }
    let ghost party = evidence_entry(
        facts.party_size,
        ",\"party_size\":"@,
        fact_evidence(facts.app_id, "party_size"@),
    );
    assert(json@ =~= start + mode + party);
    if facts.service_dependency {
        json.append(",\"service_dependency\":");
        json.append(quote(fact_evidence_id(facts.app_id, "service_dependency").as_str()).as_str());
    }
    let ghost service = evidence_entry(
        facts.service_dependency,
        ",\"service_dependency\":"@,
        fact_evidence(facts.app_id, "service_dependency"@),
    );
    assert(json@ =~= start + mode + party + service);
    json.append("}");
    json
}

pub open spec fn multiplayer_json(profile: Option<CompareProfile>) -> Seq<char> {
    match profile {
        Some(p) => "{\"crossplay\":"@ + json_flag(p.crossplay) + ",\"dominant_mode\":"@
            + json_option(opt_view(p.dominant_mode)) + ",\"drop_in_out\":"@ + json_flag(
            p.drop_in_out,
        ) + ",\"online_coop\":"@ + json_flag(p.online_coop) + ",\"private_session\":"@ + json_flag(
            p.private_session,
        ) + ",\"self_hosted_server\":"@ + json_flag(p.self_hosted_server) + "}"@,
        None => "null"@,
    }
}

fn multiplayer_text(profile: &Option<CompareProfile>) -> (r: String)
    ensures
        r@ == multiplayer_json(*profile),
{
    match profile {
        Some(p) => {
            let mut json = "{\"crossplay\":".to_owned();
            json.append(flag_text(p.crossplay));
            json.append(",\"dominant_mode\":");
            json.append(quote_option(&p.dominant_mode).as_str());
            json.append(",\"drop_in_out\":");
            json.append(flag_text(p.drop_in_out));
            json.append(",\"online_coop\":");
            json.append(flag_text(p.online_coop));
            json.append(",\"private_session\":");
            json.append(flag_text(p.private_session));
            json.append(",\"self_hosted_server\":");
            json.append(flag_text(p.self_hosted_server));
            json.append("}");
            json
        },
        None => "null".to_owned(),
    }
}

pub open spec fn party_json(profile: Option<CompareProfile>) -> Seq<char> {
    match profile {
        Some(p) => "{\"max\":"@ + json_number(p.recommended_max_players) + ",\"min\":"@
            + json_number(p.recommended_min_players) + "}"@,
        None => "null"@,
    }
}

fn party_text(profile: &Option<CompareProfile>) -> (r: String)
    ensures
        r@ == party_json(*profile),
{
    match profile {
        Some(p) => {
            let mut json = "{\"max\":".to_owned();
            json.append(number_text(p.recommended_max_players).as_str());
            json.append(",\"min\":");
            json.append(number_text(p.recommended_min_players).as_str());
            json.append("}");
            json
        },
        None => "null".to_owned(),
    }
}

/// The row of a game, its fields in order of their names.
pub open spec fn row_json(app_id: u32, game: StoredGame) -> Seq<char> {
    "{\"app_id\":"@ + decimal(app_id as nat) + ",\"data_updated_at_ms\":"@ + int_decimal(
        game.updated_at_ms as int,
    ) + ",\"evidence_ids\":"@ + evidence_json(facts_of(app_id, game.profile))
        + ",\"is_early_access\":"@ + json_flag(game.is_early_access) + ",\"multiplayer\":"@
        + multiplayer_json(game.profile) + ",\"name\":"@ + json_string(game.name@)
        + ",\"party\":"@ + party_json(game.profile) + ",\"release_date\":"@ + json_option(
        opt_view(game.release_date),
    ) + ",\"release_state\":"@ + json_string(game.release_state@) + "}"@
}

fn row_text(app_id: u32, game: &StoredGame) -> (r: String)
    ensures
        r@ == row_json(app_id, *game),
{
    let profile: Option<&CompareProfile> = match &game.profile {
        Some(profile) => Some(profile),
        None => None,
    };
    let facts = compare_facts(app_id, profile);
    let mut json = "{\"app_id\":".to_owned();
    json.append(u64_decimal(app_id as u64).as_str());
    json.append(",\"data_updated_at_ms\":");
    json.append(i64_decimal(game.updated_at_ms).as_str());
    json.append(",\"evidence_ids\":");
    json.append(evidence_text(&facts).as_str());
    json.append(",\"is_early_access\":");
    json.append(flag_text(game.is_early_access));
    json.append(",\"multiplayer\":");
    json.append(multiplayer_text(&game.profile).as_str());
    json.append(",\"name\":");
    json.append(quote(game.name.as_str()).as_str());
    json.append(",\"party\":");
    json.append(party_text(&game.profile).as_str());
    json.append(",\"release_date\":");
    json.append(quote_option(&game.release_date).as_str());
    json.append(",\"release_state\":");
    json.append(quote(game.release_state.as_str()).as_str());
    json.append("}");
    json
}

// ---------------------------------------------------------------------------
// Loading
// ---------------------------------------------------------------------------

/// The facts about the games of a comparison, row by row, and the matrix as JSON.
#[derive(Debug)]
pub struct FactMatrix {
    pub rows: Vec<CompareFacts>,
    pub json: String,
}

/// `answers` are what `load` gave for the first games, in their order.
pub open spec fn loaded_by<L: Fn(u32) -> CompareLookup>(
    load: L,
    app_ids: Seq<u32>,
    answers: Seq<CompareLookup>,
) -> bool {
    &&& answers.len() <= app_ids.len()
    &&& forall|i: int|
        0 <= i < answers.len() ==> load.ensures((app_ids[i],), #[trigger] answers[i])
}

pub open spec fn all_found(answers: Seq<CompareLookup>) -> bool {
    forall|i: int| 0 <= i < answers.len() ==> (#[trigger] answers[i]) is Found
}

pub open spec fn facts_rows(app_ids: Seq<u32>, answers: Seq<CompareLookup>) -> Seq<CompareFacts> {
    Seq::new(answers.len(), |i: int| facts_of(app_ids[i], answers[i]->Found_0.profile))
}

pub open spec fn json_rows(app_ids: Seq<u32>, answers: Seq<CompareLookup>) -> Seq<Seq<char>> {
    Seq::new(answers.len(), |i: int| row_json(app_ids[i], answers[i]->Found_0))
}

/// The matrix holds the facts about every game, or the first game that is missing, or cannot be
/// loaded, decided.
pub open spec fn is_loaded<L: Fn(u32) -> CompareLookup>(
    r: Result<FactMatrix, ApiError>,
    app_ids: Seq<u32>,
    load: L,
) -> bool {
    exists|answers: Seq<CompareLookup>| #[trigger]
        loaded_by(load, app_ids, answers) && match r {
            Ok(matrix) => answers.len() == app_ids.len() && all_found(answers) && matrix.rows@
                == facts_rows(app_ids, answers) && matrix.json@ == "["@ + joined(
                json_rows(app_ids, answers),
                ","@,
            ) + "]"@,
            Err(error) => answers.len() > 0 && all_found(answers.drop_last()) && (
            match answers.last() {
                CompareLookup::Missing => error.is(
                    404,
                    "not_found"@,
                    "app_id "@ + decimal(app_ids[answers.len() - 1] as nat) + " was not found"@,
                ),
                CompareLookup::Failed => error.is(
                    500,
                    "internal_error"@,
                    "failed to load game facts"@,
                ),
                CompareLookup::Found(_) => false,
            }),
        }
}

/// Looks for the games one after another. The first one that is missing, or cannot be loaded,
/// decides the answer, and no later one is looked for.
pub fn load_compare_rows<L: Fn(u32) -> CompareLookup>(app_ids: &Vec<u32>, load: L) -> (r: Result<
    FactMatrix,
    ApiError,
>)
    requires
        forall|app_id: u32| #[trigger] load.requires((app_id,)),
    ensures
        is_loaded(r, app_ids@, load),
        r matches Ok(matrix) ==> matrix.rows@.map_values(|row: CompareFacts| row.app_id)
            == app_ids@,
{
    let ghost mut answers: Seq<CompareLookup> = Seq::empty();
    let mut rows: Vec<CompareFacts> = Vec::new();
    let mut texts: Vec<String> = Vec::new();
    let mut i: usize = 0;
    assert(rows@ =~= facts_rows(app_ids@, answers));
    assert(views(texts@) =~= json_rows(app_ids@, answers));
    while i < app_ids.len()
        invariant
            0 <= i <= app_ids@.len(),
            forall|app_id: u32| #[trigger] load.requires((app_id,)),
            answers.len() == i,
            loaded_by(load, app_ids@, answers),
            all_found(answers),
            rows@ == facts_rows(app_ids@, answers),
            views(texts@) == json_rows(app_ids@, answers),
        decreases app_ids@.len() - i,
    {
        let app_id: u32 = app_ids[i];
        let found = load(app_id);
        let ghost before = answers;
        proof {
            answers = answers.push(found);
            assert(answers.drop_last() =~= before);
            assert(loaded_by(load, app_ids@, answers));
        }
        match found {
            CompareLookup::Missing => {
                let id = u64_decimal(app_id as u64);
                let message = join3("app_id ", id.as_str(), " was not found");
                return Err(api_error(404, "not_found", message.as_str()));
            },
            CompareLookup::Failed => return Err(
                api_error(500, "internal_error", "failed to load game facts"),
            ),
            CompareLookup::Found(game) => {
                let profile: Option<&CompareProfile> = match &game.profile {
                    Some(profile) => Some(profile),
                    None => None,
                };
                let ghost earlier = texts@;
                rows.push(compare_facts(app_id, profile));
                let text = row_text(app_id, &game);
                texts.push(text);
                assert(rows@ =~= facts_rows(app_ids@, answers));
                assert(views(texts@) =~= views(earlier).push(text@));
                assert(views(texts@) =~= json_rows(app_ids@, answers));
            },
        }
        i = i + 1;
    }
    let json = join3("[", join(&texts, ",").as_str(), "]");
    assert(rows@.map_values(|row: CompareFacts| row.app_id) =~= app_ids@);
    Ok(FactMatrix { rows, json })
}

} // verus!
