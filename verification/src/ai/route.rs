//! Which model serves which task. Model names are suggestions: a caller intersects them
//! with the models that the provider really offers.

use vstd::prelude::*;

use crate::ai::error::{config_error, misconfigured, AiError};
use crate::numbers::{parse_u64, parsed_nat};
use crate::text::{
    ascii_lowercase, is_blank, join3, split, split_on, str_eq, str_view, to_ascii_lower, trim,
    trimmed, views,
};

verus! {

/// The version of the shared route table.
pub const DEFAULT_ROUTE_VERSION: &'static str = "m8-route-v1";

#[derive(Debug, Clone, Copy, PartialEq, Eq, Structural)]
pub enum AiTaskType {
    IntentParse,
    RankExplain,
    FeatureExtract,
    Embed,
    GameSummary,
    CompareGames,
    GroupAdvice,
    DataQuality,
}

#[derive(Debug, Clone, Copy, PartialEq, Eq, Structural)]
pub enum ApiProtocol {
    ChatCompletions,
    Responses,
}

/// The name of a task.
pub open spec fn task_name(task: AiTaskType) -> Seq<char> {
    match task {
        AiTaskType::IntentParse => "intent_parse"@,
        AiTaskType::RankExplain => "rank_explain"@,
        AiTaskType::FeatureExtract => "feature_extract"@,
        AiTaskType::Embed => "embed"@,
        AiTaskType::GameSummary => "game_summary"@,
        AiTaskType::CompareGames => "compare_games"@,
        AiTaskType::GroupAdvice => "group_advice"@,
        AiTaskType::DataQuality => "data_quality"@,
    }
}

pub fn task_text(task: AiTaskType) -> (r: &'static str)
    ensures
        r@ == task_name(task),
{
    match task {
        AiTaskType::IntentParse => "intent_parse",
        AiTaskType::RankExplain => "rank_explain",
        AiTaskType::FeatureExtract => "feature_extract",
        AiTaskType::Embed => "embed",
        AiTaskType::GameSummary => "game_summary",
        AiTaskType::CompareGames => "compare_games",
        AiTaskType::GroupAdvice => "group_advice",
        AiTaskType::DataQuality => "data_quality",
    }
}

/// The name of a protocol.
pub open spec fn protocol_name(protocol: ApiProtocol) -> Seq<char> {
    match protocol {
        ApiProtocol::ChatCompletions => "chat_completions"@,
        ApiProtocol::Responses => "responses"@,
    }
}

pub fn protocol_text(protocol: ApiProtocol) -> (r: &'static str)
    ensures
        r@ == protocol_name(protocol),
{
    match protocol {
        ApiProtocol::ChatCompletions => "chat_completions",
        ApiProtocol::Responses => "responses",
    }
}

/// How one task is served.
#[derive(Debug)]
pub struct TaskRouteConfig {
    pub task: AiTaskType,
    pub primary_model: String,
    pub fallback_models: Vec<String>,
    pub protocol_preference: Vec<ApiProtocol>,
    pub timeout_secs: u64,
    pub max_output_tokens: u32,
    pub enabled: bool,
    pub route_version: String,
}

/// At most one route for each task.
#[derive(Debug)]
pub struct RouteTable {
    pub routes: Vec<TaskRouteConfig>,
}

impl RouteTable {
    /// No task has two routes.
    pub open spec fn wf(self) -> bool {
        forall|i: int, j: int|
            0 <= i < j < self.routes@.len() ==> (#[trigger] self.routes@[i]).task != (
            #[trigger] self.routes@[j]).task
    }

    pub open spec fn has(self, task: AiTaskType) -> bool {
        exists|i: int| 0 <= i < self.routes@.len() && (#[trigger] self.routes@[i]).task == task
    }

    /// Where the route of a task stands.
    pub fn position(&self, task: AiTaskType) -> (r: Option<usize>)
        ensures
            r is Some <==> self.has(task),
            r matches Some(i) ==> i < self.routes@.len() && self.routes@[i as int].task == task,
    {
        let mut i: usize = 0;
        while i < self.routes.len()
            invariant
                0 <= i <= self.routes@.len(),
                forall|j: int| 0 <= j < i ==> (#[trigger] self.routes@[j]).task != task,
            decreases self.routes@.len() - i,
        {
            if self.routes[i].task == task {
                return Some(i);
            }
            i = i + 1;
        }
        None
    }

    pub fn contains_key(&self, task: &AiTaskType) -> (r: bool)
        ensures
            r == self.has(*task),
    {
        self.position(*task).is_some()
    }

    pub fn get(&self, task: &AiTaskType) -> (r: Option<&TaskRouteConfig>)
        ensures
            r is Some <==> self.has(*task),
            r matches Some(route) ==> route.task == *task && self.routes@.contains(*route),
    {
        match self.position(*task) {
            Some(i) => {
                assert(self.routes@.contains(self.routes@[i as int]));
                Some(&self.routes[i])
            },
            None => None,
        }
    }
}

/// `route` serves `task` with these settings, under the default version, switched on.
pub open spec fn serves(
    route: TaskRouteConfig,
    task: AiTaskType,
    primary: Seq<char>,
    fallbacks: Seq<Seq<char>>,
    protocols: Seq<ApiProtocol>,
    timeout_secs: int,
    max_output_tokens: int,
) -> bool {
    &&& route.task == task
    &&& route.primary_model@ == primary
    &&& views(route.fallback_models@) == fallbacks
    &&& route.protocol_preference@ == protocols
    &&& route.timeout_secs == timeout_secs
    &&& route.max_output_tokens == max_output_tokens
    &&& route.enabled
    &&& route.route_version@ == DEFAULT_ROUTE_VERSION@
}

pub open spec fn chat_first() -> Seq<ApiProtocol> {
    seq![ApiProtocol::ChatCompletions, ApiProtocol::Responses]
}

pub open spec fn responses_first() -> Seq<ApiProtocol> {
    seq![ApiProtocol::Responses, ApiProtocol::ChatCompletions]
}

fn protocols(responses_preferred: bool) -> (r: Vec<ApiProtocol>)
    ensures
        r@ == (if responses_preferred {
            responses_first()
        } else {
            chat_first()
        }),
{
    let mut list: Vec<ApiProtocol> = Vec::new();
    if responses_preferred {
        list.push(ApiProtocol::Responses);
        list.push(ApiProtocol::ChatCompletions);
    } else {
        list.push(ApiProtocol::ChatCompletions);
        list.push(ApiProtocol::Responses);
    }
    list
}

fn one_model(model: &str) -> (r: Vec<String>)
    ensures
        views(r@) == seq![model@],
{
    let mut list: Vec<String> = Vec::new();
    list.push(model.to_owned());
    assert(views(list@) =~= seq![model@]);
    list
}

fn default_route(
    task: AiTaskType,
    primary: &str,
    fallback_models: Vec<String>,
    responses_preferred: bool,
    timeout_secs: u64,
    max_output_tokens: u32,
) -> (r: TaskRouteConfig)
    ensures
        serves(
            r,
            task,
            primary@,
            views(fallback_models@),
            if responses_preferred {
                responses_first()
            } else {
                chat_first()
            },
            timeout_secs as int,
            max_output_tokens as int,
        ),
{
    TaskRouteConfig {
        task,
        primary_model: primary.to_owned(),
        fallback_models,
        protocol_preference: protocols(responses_preferred),
        timeout_secs,
        max_output_tokens,
        enabled: true,
        route_version: DEFAULT_ROUTE_VERSION.to_owned(),
    }
}

/// The six routes of the default table.
pub open spec fn is_default_table(t: RouteTable) -> bool {
    let r = t.routes@;
    &&& r.len() == 6
    &&& serves(
        r[0],
        AiTaskType::IntentParse,
        "grok-chat-fast"@,
        seq!["grok-4.20-0309-non-reasoning"@],
        chat_first(),
        8,
        512,
    )
    &&& serves(
        r[1],
        AiTaskType::RankExplain,
        "grok-4.3"@,
        seq!["grok-4.20-0309-non-reasoning"@],
        responses_first(),
        20,
        1800,
    )
    &&& serves(
        r[2],
        AiTaskType::GameSummary,
        "grok-4.20-0309-non-reasoning"@,
        seq!["grok-4.3"@],
        chat_first(),
        30,
        2000,
    )
    &&& serves(
        r[3],
        AiTaskType::CompareGames,
        "grok-4.20-0309-reasoning"@,
        seq!["grok-4.3"@],
        chat_first(),
        25,
        2400,
    )
    &&& serves(
        r[4],
        AiTaskType::GroupAdvice,
        "grok-4.20-0309-reasoning"@,
        seq!["grok-4.3"@],
        chat_first(),
        25,
        2000,
    )
    &&& serves(
        r[5],
        AiTaskType::DataQuality,
        "grok-4.20-0309-non-reasoning"@,
        Seq::empty(),
        chat_first(),
        20,
        1200,
    )
}

/// The default route table.
pub fn default_task_routes() -> (t: RouteTable)
    ensures
        is_default_table(t),
        t.wf(),
{
    let mut routes: Vec<TaskRouteConfig> = Vec::new();
    routes.push(
        default_route(
            AiTaskType::IntentParse,
            "grok-chat-fast",
            one_model("grok-4.20-0309-non-reasoning"),
            false,
            8,
            512,
        ),
    );
    routes.push(
        default_route(
            AiTaskType::RankExplain,
            "grok-4.3",
            one_model("grok-4.20-0309-non-reasoning"),
            true,
            20,
            1_800,
        ),
    );
    routes.push(
        default_route(
            AiTaskType::GameSummary,
            "grok-4.20-0309-non-reasoning",
            one_model("grok-4.3"),
            false,
            30,
            2_000,
        ),
    );
    routes.push(
        default_route(
            AiTaskType::CompareGames,
            "grok-4.20-0309-reasoning",
            one_model("grok-4.3"),
            false,
            25,
            2_400,
        ),
    );
    routes.push(
        default_route(
            AiTaskType::GroupAdvice,
            "grok-4.20-0309-reasoning",
            one_model("grok-4.3"),
            false,
            25,
            2_000,
        ),
    );
    let none: Vec<String> = Vec::new();
    assert(views(none@) =~= Seq::empty());
    routes.push(
        default_route(
            AiTaskType::DataQuality,
            "grok-4.20-0309-non-reasoning",
            none,
            false,
            20,
            1_200,
        ),
    );
    RouteTable { routes }
}

/// Every default route is of the shared version and within the limits that an override
/// would have to keep.
pub proof fn lemma_default_routes_share_version(t: RouteTable, i: int)
    requires
        is_default_table(t),
        0 <= i < t.routes@.len(),
    ensures
        t.routes@[i].route_version@ == DEFAULT_ROUTE_VERSION@,
        t.routes@[i].enabled,
        1 <= t.routes@[i].timeout_secs <= 120,
        t.has(t.routes@[i].task),
{
}

// ---------------------------------------------------------------------------
// Overrides
// ---------------------------------------------------------------------------

pub open spec fn env_key(task: AiTaskType) -> Seq<char> {
    match task {
        AiTaskType::IntentParse => "INTENT_PARSE"@,
        AiTaskType::RankExplain => "RANK_EXPLAIN"@,
        AiTaskType::FeatureExtract => "FEATURE_EXTRACT"@,
        AiTaskType::Embed => "EMBED"@,
        AiTaskType::GameSummary => "GAME_SUMMARY"@,
        AiTaskType::CompareGames => "COMPARE_GAMES"@,
        AiTaskType::GroupAdvice => "GROUP_ADVICE"@,
        AiTaskType::DataQuality => "DATA_QUALITY"@,
    }
}

/// The name of a task inside environment variables.
pub fn task_env_key(task: AiTaskType) -> (r: &'static str)
    ensures
        r@ == env_key(task),
{
    match task {
        AiTaskType::IntentParse => "INTENT_PARSE",
        AiTaskType::RankExplain => "RANK_EXPLAIN",
        AiTaskType::FeatureExtract => "FEATURE_EXTRACT",
        AiTaskType::Embed => "EMBED",
        AiTaskType::GameSummary => "GAME_SUMMARY",
        AiTaskType::CompareGames => "COMPARE_GAMES",
        AiTaskType::GroupAdvice => "GROUP_ADVICE",
        AiTaskType::DataQuality => "DATA_QUALITY",
    }
}

/// What the environment sets for one task, as far as it sets anything.
#[derive(Debug)]
pub struct RouteOverride {
    pub model: Option<String>,
    pub fallbacks: Option<String>,
    pub timeout_secs: Option<String>,
    pub enabled: Option<String>,
}

/// The tasks that a single-model deployment serves with its one model.
pub open spec fn is_online_task(task: AiTaskType) -> bool {
    task is IntentParse || task is RankExplain || task is CompareGames || task is GroupAdvice
}

/// The parts of a list, trimmed, blanks left out.
pub open spec fn list_parts(parts: Seq<Seq<char>>) -> Seq<Seq<char>>
    decreases parts.len(),
{
    if parts.len() == 0 {
        Seq::empty()
    } else {
        let front = list_parts(parts.drop_last());
        let part = trimmed(parts.last());
        if part.len() == 0 {
            front
        } else {
            front.push(part)
        }
    }
}

fn split_list(raw: &str) -> (r: Vec<String>)
    ensures
        views(r@) == list_parts(split_on(raw@, ',')),
{
    let parts = split(raw, ',');
    let mut out: Vec<String> = Vec::new();
    let mut i: usize = 0;
    assert(views(parts@).take(0) =~= Seq::empty());
    assert(views(out@) =~= Seq::empty());
    while i < parts.len()
        invariant
            0 <= i <= parts@.len(),
            views(out@) == list_parts(views(parts@).take(i as int)),
        decreases parts@.len() - i,
    {
        proof {
            let next = views(parts@).take(i + 1);
            assert(next.drop_last() =~= views(parts@).take(i as int));
            assert(next.last() == parts@[i as int]@);
        }
        let part = trim(parts[i].as_str());
        if !part.as_str().is_empty() {
            proof {
                assert(views(out@.push(part)) =~= views(out@).push(part@));
            }
            out.push(part);
        }
        i = i + 1;
    }
    assert(views(parts@).take(parts@.len() as int) =~= views(parts@));
    out
}

/// A switch that is on.
pub open spec fn switched_on(raw: Seq<char>) -> bool {
    let value = to_ascii_lower(trimmed(raw));
    value == "1"@ || value == "true"@ || value == "yes"@ || value == "on"@
}

fn is_switched_on(raw: &str) -> (r: bool)
    ensures
        r == switched_on(raw@),
{
    let value = ascii_lowercase(trim(raw).as_str());
    let v = value.as_str();
    str_eq(v, "1") || str_eq(v, "true") || str_eq(v, "yes") || str_eq(v, "on")
}

/// Why an override is refused.
pub open spec fn override_fault(task: AiTaskType, o: RouteOverride) -> Option<Seq<char>> {
    if o.model is Some && trimmed(o.model->0@).len() == 0 {
        Some("MPGS_AI_ROUTE_"@ + env_key(task) + "_MODEL must not be empty"@)
    } else if o.timeout_secs is Some && parsed_nat(o.timeout_secs->0@, u64::MAX as nat) is None {
        Some("MPGS_AI_ROUTE_"@ + env_key(task) + "_TIMEOUT_SECS must be an integer"@)
    } else {
        None
    }
}

pub open spec fn clamp_timeout(secs: nat) -> int {
    if secs < 1 {
        1
    } else if secs > 120 {
        120
    } else {
        secs as int
    }
}

/// `new` is `old` with the override laid over it. The one model of a single-model
/// deployment counts where the task has none of its own.
pub open spec fn route_overridden(
    new: TaskRouteConfig,
    old: TaskRouteConfig,
    global_model: Option<Seq<char>>,
    o: RouteOverride,
) -> bool {
    let single = o.model is None && global_model is Some && is_online_task(old.task);
    &&& new.task == old.task
    &&& new.primary_model@ == (match o.model {
        Some(model) => trimmed(model@),
        None => if single {
            global_model->0
        } else {
            old.primary_model@
        },
    })
    &&& views(new.fallback_models@) == (match o.fallbacks {
        Some(raw) => list_parts(split_on(raw@, ',')),
        None => if single {
            Seq::empty()
        } else {
            views(old.fallback_models@)
        },
    })
    &&& new.protocol_preference == old.protocol_preference
    &&& new.timeout_secs == (match o.timeout_secs {
        Some(raw) => clamp_timeout(parsed_nat(raw@, u64::MAX as nat)->0),
        None => old.timeout_secs as int,
    })
    &&& new.max_output_tokens == old.max_output_tokens
    &&& new.enabled == (match o.enabled {
        Some(raw) => switched_on(raw@),
        None => old.enabled,
    })
    &&& new.route_version == old.route_version
}

fn override_route(route: TaskRouteConfig, global_model: Option<&str>, o: &RouteOverride) -> (r:
    Result<TaskRouteConfig, AiError>)
    ensures
        match override_fault(route.task, *o) {
            Some(reason) => misconfigured(r, reason),
            None => r matches Ok(new) && route_overridden(new, route, str_view(global_model), *o),
        },
{
    let mut route = route;
    let key = task_env_key(route.task);
    match &o.model {
        Some(model) => {
            let primary = trim(model.as_str());
            if primary.as_str().is_empty() {
                let reason = join3("MPGS_AI_ROUTE_", key, "_MODEL must not be empty");
                return Err(config_error(reason.as_str()));
            }
            route.primary_model = primary;
        },
        None => match global_model {
            Some(model) => {
                let online = matches!(
                    route.task,
                    AiTaskType::IntentParse | AiTaskType::RankExplain | AiTaskType::CompareGames
                        | AiTaskType::GroupAdvice
                );
                if online {
                    route.primary_model = model.to_owned();
                    route.fallback_models = Vec::new();
                    assert(views(route.fallback_models@) =~= Seq::empty());
                }
            },
            None => {},
        },
    }
    match &o.fallbacks {
        Some(raw) => {
            route.fallback_models = split_list(raw.as_str());
        },
        None => {},
    }
    match &o.timeout_secs {
        Some(raw) => match parse_u64(raw.as_str(), u64::MAX) {
            Some(secs) => {
                route.timeout_secs = if secs < 1 {
                    1
                } else if secs > 120 {
                    120
                } else {
                    secs
                };
            },
            None => {
                let reason = join3("MPGS_AI_ROUTE_", key, "_TIMEOUT_SECS must be an integer");
                return Err(config_error(reason.as_str()));
            },
        },
        None => {},
    }
    match &o.enabled {
        Some(raw) => {
            route.enabled = is_switched_on(raw.as_str());
        },
        None => {},
    }
    Ok(route)
}

/// The first override that is refused, in the order of the table.
pub open spec fn overrides_fault(
    routes: Seq<TaskRouteConfig>,
    overrides: Seq<RouteOverride>,
) -> Option<Seq<char>>
    decreases routes.len(),
{
    if routes.len() == 0 {
        None
    } else {
        let front = overrides_fault(routes.drop_last(), overrides.drop_last());
        if front is Some {
            front
        } else {
            override_fault(routes.last().task, overrides.last())
        }
    }
}

proof fn lemma_overrides_fault_stays(
    routes: Seq<TaskRouteConfig>,
    overrides: Seq<RouteOverride>,
    k: int,
)
    requires
        0 <= k <= routes.len() == overrides.len(),
        overrides_fault(routes.take(k), overrides.take(k)) is Some,
    ensures
        overrides_fault(routes, overrides) == overrides_fault(routes.take(k), overrides.take(k)),
    decreases routes.len(),
{
    if k == routes.len() {
        assert(routes.take(k) =~= routes);
        assert(overrides.take(k) =~= overrides);
    } else {
        assert(routes.drop_last().take(k) =~= routes.take(k));
        assert(overrides.drop_last().take(k) =~= overrides.take(k));
        lemma_overrides_fault_stays(routes.drop_last(), overrides.drop_last(), k);
    }
}

/// A global model that is blank counts as not set.
pub open spec fn global_of(model: Option<&str>) -> Option<Seq<char>> {
    match model {
        Some(text) => if trimmed(text@).len() > 0 {
            Some(text@)
        } else {
            None
        },
        None => None,
    }
}

/// Every route is the old one with its override laid over it.
pub open spec fn all_overridden(
    new: Seq<TaskRouteConfig>,
    old: Seq<TaskRouteConfig>,
    global_model: Option<Seq<char>>,
    overrides: Seq<RouteOverride>,
) -> bool {
    new.len() == old.len() && forall|i: int|
        0 <= i < new.len() ==> route_overridden(
            #[trigger] new[i],
            old[i],
            global_model,
            overrides[i],
        )
}

/// Lays the environment's settings over a table. `overrides` holds, route by route, what
/// the environment sets for the task.
pub fn apply_route_overrides(
    table: RouteTable,
    global_model: Option<&str>,
    overrides: &Vec<RouteOverride>,
) -> (r: Result<RouteTable, AiError>)
    requires
        overrides@.len() == table.routes@.len(),
    ensures
        match overrides_fault(table.routes@, overrides@) {
            Some(reason) => misconfigured(r, reason),
            None => r matches Ok(new) && all_overridden(
                new.routes@,
                table.routes@,
                global_of(global_model),
                overrides@,
            ),
        },
        table.wf() ==> (r matches Ok(new) ==> new.wf()),
{
    let global: Option<&str> = match global_model {
        Some(model) => {
            if is_blank(model) {
                None
            } else {
                Some(model)
            }
        },
        None => None,
    };
    assert(str_view(global) == global_of(global_model));
    let ghost input = table.routes@;
    let mut routes: Vec<TaskRouteConfig> = Vec::new();
    let mut fault: Option<AiError> = None;
    assert(input.take(0) =~= Seq::empty());
    assert(overrides@.take(0) =~= Seq::empty());
    for route in it: table.routes
        invariant
            it.seq() == input,
            overrides@.len() == input.len(),
            str_view(global) == global_of(global_model),
            fault is None ==> routes@.len() == it.index(),
            fault is None ==> overrides_fault(
                input.take(it.index()),
                overrides@.take(it.index()),
            ) is None,
            fault is None ==> forall|i: int|
                0 <= i < routes@.len() ==> route_overridden(
                    #[trigger] routes@[i],
                    input[i],
                    global_of(global_model),
                    overrides@[i],
                ),
            fault matches Some(e) ==> overrides_fault(input, overrides@) is Some && misconfigured(
                Err::<RouteTable, AiError>(e),
                overrides_fault(input, overrides@)->0,
            ),
    {
        if fault.is_none() {
            let at: usize = routes.len();
            proof {
                let k = it.index();
                assert(input.take(k + 1).drop_last() =~= input.take(k));
                assert(overrides@.take(k + 1).drop_last() =~= overrides@.take(k));
                assert(input.take(k + 1).last() == route);
                assert(overrides@.take(k + 1).last() == overrides@[k]);
                if override_fault(route.task, overrides@[k]) is Some {
                    lemma_overrides_fault_stays(input, overrides@, k + 1);
                }
            }
            match override_route(route, global, &overrides[at]) {
                Ok(new) => {
                    routes.push(new);
                },
                Err(e) => {
                    fault = Some(e);
                },
            }
        }
    }
    match fault {
        Some(e) => Err(e),
        None => {
            proof {
                assert(input.take(input.len() as int) =~= input);
                assert(overrides@.take(input.len() as int) =~= overrides@);
                let new = RouteTable { routes };
                if table.wf() {
                    assert forall|i: int, j: int| 0 <= i < j < new.routes@.len() implies (
                    #[trigger] new.routes@[i]).task != (#[trigger] new.routes@[j]).task by {
                        assert(route_overridden(
                            new.routes@[i],
                            input[i],
                            global_of(global_model),
                            overrides@[i],
                        ));
                        assert(route_overridden(
                            new.routes@[j],
                            input[j],
                            global_of(global_model),
                            overrides@[j],
                        ));
                        assert(table.routes@[i].task != table.routes@[j].task);
                    }
                }
            }
            Ok(RouteTable { routes })
        },
    }
}

/// The result holds the default routes with the overrides laid over them.
pub open spec fn are_env_routes(
    r: Result<RouteTable, AiError>,
    global_model: Option<Seq<char>>,
    overrides: Seq<RouteOverride>,
) -> bool {
    exists|t: RouteTable| #[trigger]
        is_default_table(t) && match overrides_fault(t.routes@, overrides) {
            Some(reason) => misconfigured(r, reason),
            None => r matches Ok(new) && new.wf() && new.routes@.len() == 6 && all_overridden(
                new.routes@,
                t.routes@,
                global_model,
                overrides,
            ),
        }
}

/// The default routes with the environment's settings laid over them. `overrides` holds
/// what the environment sets for intent parsing, rank explanation, game summary,
/// comparison, group advice and data quality, in this order.
pub fn task_routes_from_env(global_model: Option<&str>, overrides: &Vec<RouteOverride>) -> (r:
    Result<RouteTable, AiError>)
    requires
        overrides@.len() == 6,
    ensures
        are_env_routes(r, global_of(global_model), overrides@),
{
    let table = default_task_routes();
    let ghost t = table;
    assert(is_default_table(t));
    apply_route_overrides(table, global_model, overrides)
}

}
